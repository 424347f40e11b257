//! The LLVM toolchain matrix that replays QIR seed artifacts: parsing the
//! comma-separated version list and the command line of the replay driver.

use vstd::prelude::*;
use vstd::string::*;
use crate::text::{append_decimal, decimal};

verus! {

/// Oldest LLVM release the replay matrix supports.
pub const MIN_LLVM_VERSION: u8 = 14;

/// Newest LLVM release the replay matrix supports.
pub const MAX_LLVM_VERSION: u8 = 21;

/// One LLVM release of the replay matrix.
#[derive(Clone, Copy, Debug, PartialEq, Eq, Structural)]
pub struct LlvmToolchain {
    pub version: u8,
}

/// Why a decimal version number could not be read (the cases of
/// `core::num::IntErrorKind` that an unsigned byte can produce).
#[derive(Clone, Copy, Debug, PartialEq, Eq, Structural)]
pub enum IntErrorKind {
    Empty,
    InvalidDigit,
    PosOverflow,
}

/// Unicode `White_Space`, the set that `char::is_whitespace` and `str::trim`
/// use.
pub open spec fn is_white_space(c: char) -> bool {
    let v = c as u32;
    ||| 0x09 <= v <= 0x0D
    ||| v == 0x20
    ||| v == 0x85
    ||| v == 0xA0
    ||| v == 0x1680
    ||| 0x2000 <= v <= 0x200A
    ||| v == 0x2028
    ||| v == 0x2029
    ||| v == 0x202F
    ||| v == 0x205F
    ||| v == 0x3000
}

/// The first index at or after `i` that does not hold whitespace.
pub open spec fn skip_white_space(s: Seq<char>, i: int) -> int
    decreases s.len() - i,
{
    if 0 <= i < s.len() && is_white_space(s[i]) {
        skip_white_space(s, i + 1)
    } else {
        i
    }
}

/// The end of `s[lo..j]` once its trailing whitespace is removed.
pub open spec fn drop_white_space_back(s: Seq<char>, j: int, lo: int) -> int
    decreases j - lo,
{
    if lo < j && j <= s.len() && is_white_space(s[j - 1]) {
        drop_white_space_back(s, j - 1, lo)
    } else {
        j
    }
}

/// `s` without its leading and trailing whitespace (`str::trim`).
pub open spec fn trim(s: Seq<char>) -> Seq<char> {
    let start = skip_white_space(s, 0);
    s.subrange(start, drop_white_space_back(s, s.len() as int, start))
}

/// The pieces of `s` between commas, in order (`str::split(',')`); an empty
/// text is one empty piece.
pub open spec fn comma_fields(s: Seq<char>) -> Seq<Seq<char>>
    decreases s.len(),
{
    if s.len() == 0 {
        seq![Seq::<char>::empty()]
    } else {
        let fields = comma_fields(s.drop_last());
        if s.last() == ',' {
            fields.push(Seq::<char>::empty())
        } else {
            fields.update(fields.len() - 1, fields.last().push(s.last()))
        }
    }
}

pub open spec fn is_ascii_digit(c: char) -> bool {
    '0' <= c && c <= '9'
}

pub open spec fn digit_value(c: char) -> nat {
    ((c as u32) - ('0' as u32)) as nat
}

/// Reads decimal digits left to right as `u8::from_str` does: a non-digit
/// fails at once, and so does a step whose value no longer fits a byte.
pub open spec fn scan_digits(d: Seq<char>) -> Result<nat, IntErrorKind>
    decreases d.len(),
{
    if d.len() == 0 {
        Ok(0)
    } else {
        match scan_digits(d.drop_last()) {
            Err(kind) => Err(kind),
            Ok(value) => if !is_ascii_digit(d.last()) {
                Err(IntErrorKind::InvalidDigit)
            } else if value * 10 + digit_value(d.last()) > 255 {
                Err(IntErrorKind::PosOverflow)
            } else {
                Ok(value * 10 + digit_value(d.last()))
            },
        }
    }
}

/// The value `u8::from_str` gives for `t`: an optional leading `+`, then
/// decimal digits.
pub open spec fn parse_u8_text(t: Seq<char>) -> Result<nat, IntErrorKind> {
    if t.len() == 0 {
        Err(IntErrorKind::Empty)
    } else if t.len() == 1 && (t[0] == '+' || t[0] == '-') {
        Err(IntErrorKind::InvalidDigit)
    } else if t[0] == '+' {
        scan_digits(t.drop_first())
    } else {
        scan_digits(t)
    }
}

/// The `Display` text of a byte-parsing failure.
pub open spec fn int_error_text(kind: IntErrorKind) -> Seq<char> {
    match kind {
        IntErrorKind::Empty => "cannot parse integer from empty string"@,
        IntErrorKind::InvalidDigit => "invalid digit found in string"@,
        IntErrorKind::PosOverflow => "number too large to fit in target type"@,
    }
}

/// The `Debug` rendering of a string (quoted and escaped), as the standard
/// library formats it.
pub uninterp spec fn str_debug(text: Seq<char>) -> Seq<char>;

/// The failure reported for a version that does not read as a byte, given
/// the quoted rendering of its text.
pub open spec fn unparsable_version_text(quoted: Seq<char>, kind: IntErrorKind) -> Seq<char> {
    "failed to parse LLVM toolchain version "@ + quoted + ": "@ + int_error_text(kind)
}

/// The failure reported for a version outside the supported releases.
pub open spec fn out_of_range_text(version: nat) -> Seq<char> {
    "LLVM toolchain version "@ + decimal(version)
        + " is out of range; expected 14 through 21"@
}

/// The failure reported when the list names no version at all.
pub open spec fn nothing_requested_text() -> Seq<char> {
    "no LLVM toolchains requested"@
}

/// One comma-separated piece applied to the versions read so far: blank
/// pieces are skipped, repeated versions kept once.
pub open spec fn field_step(versions: Seq<u8>, field: Seq<char>) -> Result<Seq<u8>, Seq<char>> {
    let t = trim(field);
    if t.len() == 0 {
        Ok(versions)
    } else {
        match parse_u8_text(t) {
            Err(kind) => Err(unparsable_version_text(str_debug(t), kind)),
            Ok(v) => if v < MIN_LLVM_VERSION || v > MAX_LLVM_VERSION {
                Err(out_of_range_text(v))
            } else if versions.contains(v as u8) {
                Ok(versions)
            } else {
                Ok(versions.push(v as u8))
            },
        }
    }
}

/// The pieces read in order, stopping at the first failure.
pub open spec fn scan_fields(fields: Seq<Seq<char>>) -> Result<Seq<u8>, Seq<char>>
    decreases fields.len(),
{
    if fields.len() == 0 {
        Ok(Seq::<u8>::empty())
    } else {
        match scan_fields(fields.drop_last()) {
            Err(message) => Err(message),
            Ok(versions) => field_step(versions, fields.last()),
        }
    }
}

/// The versions a comma-separated list requests, or the failure it draws.
pub open spec fn requested_versions(csv: Seq<char>) -> Result<Seq<u8>, Seq<char>> {
    match scan_fields(comma_fields(csv)) {
        Err(message) => Err(message),
        Ok(versions) => if versions.len() == 0 {
            Err(nothing_requested_text())
        } else {
            Ok(versions)
        },
    }
}

pub open spec fn toolchain_versions(toolchains: Seq<LlvmToolchain>) -> Seq<u8> {
    toolchains.map_values(|t: LlvmToolchain| t.version)
}

/// Every version is a supported release and none is repeated.
pub open spec fn well_formed_matrix(versions: Seq<u8>) -> bool {
    &&& forall|i: int| 0 <= i < versions.len()
        ==> MIN_LLVM_VERSION <= #[trigger] versions[i] <= MAX_LLVM_VERSION
    &&& forall|i: int, j: int| 0 <= i < j < versions.len() ==> versions[i] != versions[j]
}

proof fn lemma_field_step_keeps_matrix(versions: Seq<u8>, field: Seq<char>)
    requires
        well_formed_matrix(versions),
    ensures
        field_step(versions, field) matches Ok(next) ==> well_formed_matrix(next),
{
    let t = trim(field);
    if t.len() != 0 {
        if let Ok(v) = parse_u8_text(t) {
            if MIN_LLVM_VERSION <= v <= MAX_LLVM_VERSION && !versions.contains(v as u8) {
                let next = versions.push(v as u8);
                assert forall|i: int, j: int| 0 <= i < j < next.len() implies next[i] != next[j] by {
                    if j == next.len() - 1 {
                        assert(next[i] == versions[i]);
                        if versions[i] == v as u8 {
                            assert(versions.contains(v as u8));
                        }
                    }
                }
            }
        }
    }
}

proof fn lemma_scan_fields_matrix(fields: Seq<Seq<char>>)
    ensures
        scan_fields(fields) matches Ok(versions) ==> well_formed_matrix(versions),
    decreases fields.len(),
{
    if fields.len() > 0 {
        lemma_scan_fields_matrix(fields.drop_last());
        if let Ok(versions) = scan_fields(fields.drop_last()) {
            lemma_field_step_keeps_matrix(versions, fields.last());
        }
    }
}

/// Renders `text` with the standard library's `Debug` for strings.
#[verifier::external_body]
fn debug_quoted(text: &str) -> (quoted: String)
    ensures
        quoted@ == str_debug(text@),
{
    format!("{:?}", text)
}

/// Whether `c` is Unicode whitespace.
pub fn is_unicode_whitespace(c: char) -> (b: bool)
    ensures
        b == is_white_space(c),
{
    let v = c as u32;
    (0x09 <= v && v <= 0x0D) || v == 0x20 || v == 0x85 || v == 0xA0 || v == 0x1680 || (0x2000
        <= v && v <= 0x200A) || v == 0x2028 || v == 0x2029 || v == 0x202F || v == 0x205F || v
        == 0x3000
}

/// `text` without leading and trailing whitespace.
pub fn trim_text(text: &str) -> (t: &str)
    ensures
        t@ == trim(text@),
{
    let n = text.unicode_len();
    let mut a: usize = 0;
    while a < n && is_unicode_whitespace(text.get_char(a))
        invariant
            n == text@.len(),
            a <= n,
            skip_white_space(text@, a as int) == skip_white_space(text@, 0),
        decreases n - a,
    {
        a = a + 1;
    }
    let mut b: usize = n;
    while b > a && is_unicode_whitespace(text.get_char(b - 1))
        invariant
            n == text@.len(),
            a <= b <= n,
            skip_white_space(text@, 0) == a,
            drop_white_space_back(text@, b as int, a as int) == drop_white_space_back(
                text@,
                n as int,
                a as int,
            ),
        decreases b - a,
    {
        b = b - 1;
    }
    text.substring_char(a, b)
}

/// Whether `text` reads exactly `expected`.
pub fn text_is(text: &str, expected: &str) -> (same: bool)
    ensures
        same == (text@ == expected@),
{
    let n = text.unicode_len();
    if n != expected.unicode_len() {
        return false;
    }
    let mut i: usize = 0;
    while i < n
        invariant
            n == text@.len(),
            n == expected@.len(),
            i <= n,
            forall|k: int| 0 <= k < i ==> text@[k] == expected@[k],
        decreases n - i,
    {
        if text.get_char(i) != expected.get_char(i) {
            return false;
        }
        i = i + 1;
    }
    assert(text@ =~= expected@);
    true
}

/// Reads `text` as `u8::from_str` does.
pub fn parse_version(text: &str) -> (r: Result<u8, IntErrorKind>)
    ensures
        match parse_u8_text(text@) {
            Ok(v) => r == Ok::<u8, IntErrorKind>(v as u8) && v < 256,
            Err(kind) => r == Err::<u8, IntErrorKind>(kind),
        },
{
    let n = text.unicode_len();
    if n == 0 {
        return Err(IntErrorKind::Empty);
    }
    let first = text.get_char(0);
    if n == 1 && (first == '+' || first == '-') {
        return Err(IntErrorKind::InvalidDigit);
    }
    let start: usize = if first == '+' { 1 } else { 0 };
    let ghost digits = if first == '+' { text@.drop_first() } else { text@ };
    assert(digits =~= text@.subrange(start as int, n as int));
    assert(parse_u8_text(text@) == scan_digits(digits));
    let mut value: u16 = 0;
    let mut i: usize = start;
    while i < n
        invariant
            n == text@.len(),
            start <= i <= n,
            value < 256,
            parse_u8_text(text@) == scan_digits(text@.subrange(start as int, n as int)),
            scan_digits(text@.subrange(start as int, i as int)) == Ok::<nat, IntErrorKind>(
                value as nat,
            ),
        decreases n - i,
    {
        let c = text.get_char(i);
        let ghost before = text@.subrange(start as int, i as int);
        let ghost after = text@.subrange(start as int, i as int + 1);
        assert(after.drop_last() =~= before);
        assert(after.last() == c);
        assert(text@.subrange(start as int, n as int).subrange(0, i - start + 1) =~= after);
        if !('0' <= c && c <= '9') {
            proof {
                lemma_scan_stops(text@.subrange(start as int, n as int), i - start);
            }
            return Err(IntErrorKind::InvalidDigit);
        }
        let d = (c as u32 - '0' as u32) as u16;
        if value * 10 + d > 255 {
            proof {
                lemma_scan_stops(text@.subrange(start as int, n as int), i - start);
            }
            return Err(IntErrorKind::PosOverflow);
        }
        value = value * 10 + d;
        i = i + 1;
    }
    assert(text@.subrange(start as int, n as int) =~= text@.subrange(start as int, i as int));
    Ok(value as u8)
}

/// Once a prefix of the digits fails, the whole text fails the same way.
proof fn lemma_scan_stops(d: Seq<char>, k: int)
    requires
        0 <= k < d.len(),
        scan_digits(d.subrange(0, k + 1)) is Err,
    ensures
        scan_digits(d) == scan_digits(d.subrange(0, k + 1)),
    decreases d.len() - k,
{
    if k + 1 < d.len() {
        assert(d.drop_last().subrange(0, k + 1) =~= d.subrange(0, k + 1));
        lemma_scan_stops(d.drop_last(), k);
    } else {
        assert(d.subrange(0, k + 1) =~= d);
    }
}

/// The failure text for a version that does not read as a byte, given the
/// quoted rendering of the version text.
pub fn unparsable_version_message(quoted: &str, kind: IntErrorKind) -> (text: String)
    ensures
        text@ == unparsable_version_text(quoted@, kind),
{
    let mut out = String::from_str("failed to parse LLVM toolchain version ");
    out.append(quoted);
    out.append(": ");
    match kind {
        IntErrorKind::Empty => out.append("cannot parse integer from empty string"),
        IntErrorKind::InvalidDigit => out.append("invalid digit found in string"),
        IntErrorKind::PosOverflow => out.append("number too large to fit in target type"),
    }
    out
}

/// The failure text for a version outside the supported releases.
pub fn out_of_range_message(version: u8) -> (text: String)
    ensures
        text@ == out_of_range_text(version as nat),
{
    let mut out = String::from_str("LLVM toolchain version ");
    append_decimal(&mut out, version as u64);
    out.append(" is out of range; expected 14 through 21");
    out
}

/// Applies one comma-separated piece to the toolchains read so far.
fn apply_field(field: &str, toolchains: &mut Vec<LlvmToolchain>) -> (r: Result<(), String>)
    ensures
        match field_step(toolchain_versions(old(toolchains)@), field@) {
            Ok(next) => r is Ok && toolchain_versions(final(toolchains)@) == next,
            Err(message) => r matches Err(e) && e@ == message,
        },
{
    let text = trim_text(field);
    if text.unicode_len() == 0 {
        return Ok(());
    }
    let version = match parse_version(text) {
        Ok(v) => v,
        Err(kind) => {
            let quoted = debug_quoted(text);
            return Err(unparsable_version_message(quoted.as_str(), kind));
        },
    };
    if version < MIN_LLVM_VERSION || version > MAX_LLVM_VERSION {
        return Err(out_of_range_message(version));
    }
    let ghost versions = toolchain_versions(toolchains@);
    let mut j: usize = 0;
    while j < toolchains.len()
        invariant
            j <= toolchains.len(),
            versions == toolchain_versions(toolchains@),
            forall|k: int| 0 <= k < j ==> versions[k] != version,
            text@ == trim(field@),
            text@.len() > 0,
            parse_u8_text(text@) == Ok::<nat, IntErrorKind>(version as nat),
            MIN_LLVM_VERSION <= version <= MAX_LLVM_VERSION,
        decreases toolchains.len() - j,
    {
        if toolchains[j].version == version {
            assert(versions[j as int] == version);
            assert(versions.contains(version));
            assert(parse_u8_text(text@) == Ok::<nat, IntErrorKind>(version as nat));
            assert(field_step(versions, field@) == Ok::<Seq<u8>, Seq<char>>(versions));
            return Ok(());
        }
        j = j + 1;
    }
    assert(!versions.contains(version));
    toolchains.push(LlvmToolchain { version });
    assert(toolchain_versions(toolchains@) =~= versions.push(version));
    Ok(())
}

/// Reads a comma-separated list of LLVM versions: blank pieces are skipped,
/// repeats kept once in first-seen order, and every version must lie in
/// 14 through 21. The first failing piece decides the error.
pub fn parse_toolchains(csv: &str) -> (r: Result<Vec<LlvmToolchain>, String>)
    ensures
        match requested_versions(csv@) {
            Ok(versions) => r matches Ok(t) && toolchain_versions(t@) == versions,
            Err(message) => r matches Err(e) && e@ == message,
        },
        r matches Ok(t) ==> t@.len() > 0 && well_formed_matrix(toolchain_versions(t@)),
{
    let n = csv.unicode_len();
    let mut toolchains: Vec<LlvmToolchain> = Vec::new();
    let mut start: usize = 0;
    let mut i: usize = 0;
    let ghost mut done: Seq<Seq<char>> = Seq::empty();
    assert(toolchain_versions(toolchains@) =~= Seq::<u8>::empty());
    assert(csv@.take(0) =~= Seq::<char>::empty());
    assert(csv@.subrange(0, 0) =~= Seq::<char>::empty());
    while i < n
        invariant
            n == csv@.len(),
            start <= i <= n,
            comma_fields(csv@.take(i as int)) == done.push(csv@.subrange(start as int, i as int)),
            scan_fields(done) == Ok::<Seq<u8>, Seq<char>>(toolchain_versions(toolchains@)),
        decreases n - i,
    {
        let c = csv.get_char(i);
        let ghost prefix = csv@.take(i as int + 1);
        assert(prefix.drop_last() =~= csv@.take(i as int));
        assert(prefix.last() == c);
        if c == ',' {
            let field = csv.substring_char(start, i);
            let ghost before = done;
            let step = apply_field(field, &mut toolchains);
            proof {
                done = done.push(csv@.subrange(start as int, i as int));
                assert(done.drop_last() =~= before);
            }
            if let Err(message) = step {
                proof {
                    let all = comma_fields(csv@);
                    lemma_fields_nonempty(csv@);
                    lemma_fields_grow(csv@, i as int + 1);
                    assert(comma_fields(csv@.take(i as int + 1)).drop_last() =~= done);
                    assert(all.drop_last().subrange(0, done.len() as int) =~= all.subrange(
                        0,
                        done.len() as int,
                    ));
                    lemma_scan_fields_stops(all, done);
                }
                return Err(message);
            }
            assert(csv@.subrange(i as int + 1, i as int + 1) =~= Seq::<char>::empty());
            start = i + 1;
        } else {
            let ghost piece = csv@.subrange(start as int, i as int);
            assert(csv@.subrange(start as int, i as int + 1) =~= piece.push(c));
            assert(done.push(piece).update(done.len() as int, piece.push(c)) =~= done.push(
                piece.push(c),
            ));
        }
        i = i + 1;
    }
    let field = csv.substring_char(start, n);
    let ghost before = done;
    let step = apply_field(field, &mut toolchains);
    proof {
        done = done.push(csv@.subrange(start as int, n as int));
        assert(done.drop_last() =~= before);
        assert(csv@.take(n as int) =~= csv@);
        lemma_scan_fields_matrix(done);
    }
    if let Err(message) = step {
        return Err(message);
    }
    if toolchains.len() == 0 {
        return Err(String::from_str("no LLVM toolchains requested"));
    }
    Ok(toolchains)
}

proof fn lemma_fields_nonempty(s: Seq<char>)
    ensures
        comma_fields(s).len() >= 1,
    decreases s.len(),
{
    if s.len() > 0 {
        lemma_fields_nonempty(s.drop_last());
    }
}

/// The completed pieces of a prefix are the first completed pieces of the
/// whole text.
proof fn lemma_fields_grow(s: Seq<char>, k: int)
    requires
        0 <= k <= s.len(),
    ensures
        ({
            let p = comma_fields(s.take(k)).drop_last();
            let q = comma_fields(s).drop_last();
            p.len() <= q.len() && p == q.subrange(0, p.len() as int)
        }),
    decreases s.len() - k,
{
    if k < s.len() {
        lemma_fields_grow(s.drop_last(), k);
        assert(s.drop_last().take(k) =~= s.take(k));
        lemma_fields_nonempty(s.drop_last());
        let f = comma_fields(s.drop_last());
        let p = comma_fields(s.take(k)).drop_last();
        if s.last() == ',' {
            assert(comma_fields(s).drop_last() =~= f);
            assert(f.subrange(0, p.len() as int) =~= f.drop_last().subrange(0, p.len() as int));
        } else {
            assert(comma_fields(s).drop_last() =~= f.drop_last());
        }
    } else {
        assert(s.take(k) =~= s);
    }
}

/// A failure among the first pieces is the failure of the whole list.
proof fn lemma_scan_fields_stops(all: Seq<Seq<char>>, prefix: Seq<Seq<char>>)
    requires
        prefix.len() <= all.len(),
        prefix == all.subrange(0, prefix.len() as int),
        scan_fields(prefix) is Err,
    ensures
        scan_fields(all) == scan_fields(prefix),
    decreases all.len() - prefix.len(),
{
    if prefix.len() < all.len() {
        assert(all.drop_last().subrange(0, prefix.len() as int) =~= prefix);
        lemma_scan_fields_stops(all.drop_last(), prefix);
    } else {
        assert(all =~= prefix);
    }
}

/// The fast matrix replayed when no list is given: 14, 15, 16 and 21.
pub fn fast_matrix() -> (toolchains: Vec<LlvmToolchain>)
    ensures
        toolchain_versions(toolchains@) == seq![14u8, 15u8, 16u8, 21u8],
{
    let toolchains = vec![
        LlvmToolchain { version: 14 },
        LlvmToolchain { version: 15 },
        LlvmToolchain { version: 16 },
        LlvmToolchain { version: 21 },
    ];
    assert(toolchain_versions(toolchains@) =~= seq![14u8, 15u8, 16u8, 21u8]);
    toolchains
}

/// How an artifact spells its pointers.
#[derive(Clone, Copy, Debug, PartialEq, Eq, Structural)]
pub enum PointerMode {
    Typed,
    Opaque,
}

impl PointerMode {
    /// The mode of an artifact generated with or without typed pointers.
    pub fn from_allow_typed_pointers(allow_typed_pointers: bool) -> (mode: PointerMode)
        ensures
            mode == (if allow_typed_pointers { PointerMode::Typed } else { PointerMode::Opaque }),
    {
        if allow_typed_pointers {
            PointerMode::Typed
        } else {
            PointerMode::Opaque
        }
    }

    /// Extra arguments every LLVM tool of `version` needs for this mode: only
    /// LLVM 14 must be told to read opaque pointers.
    pub fn extra_args(self, version: u8) -> (args: Vec<&'static str>)
        ensures
            args@.len() == (if version == 14 && self == PointerMode::Opaque { 1int } else { 0int }),
            args@.len() == 1 ==> args@[0]@ == "-opaque-pointers"@,
    {
        match (version, self) {
            (14, PointerMode::Opaque) => vec!["-opaque-pointers"],
            _ => Vec::new(),
        }
    }
}

/// The help text of the replay driver, naming its default corpus directory.
pub open spec fn usage_text(default_corpus_dir: Seq<char>) -> Seq<char> {
    "Usage: cargo run -p fuzz --bin qir_matrix -- [--toolchains 14,15,16,21] [--corpus-dir PATH] [--output-dir PATH]\n\nDefault corpus directory: "@
        + default_corpus_dir
        + "\nFast matrix default: 14,15,16,21\nFull matrix example: --toolchains 14,15,16,17,18,19,20,21"@
}

/// The help text of the replay driver.
pub fn usage(default_corpus_dir: &str) -> (text: String)
    ensures
        text@ == usage_text(default_corpus_dir@),
{
    let mut out = String::from_str(
        "Usage: cargo run -p fuzz --bin qir_matrix -- [--toolchains 14,15,16,21] [--corpus-dir PATH] [--output-dir PATH]\n\nDefault corpus directory: ",
    );
    out.append(default_corpus_dir);
    out.append(
        "\nFast matrix default: 14,15,16,21\nFull matrix example: --toolchains 14,15,16,17,18,19,20,21",
    );
    out
}

/// The failure for an argument the driver does not know, given its quoted
/// rendering.
pub open spec fn unrecognized_argument_text(quoted: Seq<char>, default_corpus_dir: Seq<char>) -> Seq<
    char,
> {
    "unrecognized argument "@ + quoted + "\n\n"@ + usage_text(default_corpus_dir)
}

/// The failure for an argument the driver does not know.
pub fn unrecognized_argument_message(quoted: &str, default_corpus_dir: &str) -> (text: String)
    ensures
        text@ == unrecognized_argument_text(quoted@, default_corpus_dir@),
{
    let mut out = String::from_str("unrecognized argument ");
    out.append(quoted);
    out.append("\n\n");
    let help = usage(default_corpus_dir);
    out.append(help.as_str());
    out
}

/// Whether the arguments ask for help (`--help` or `-h` anywhere).
pub open spec fn asks_for_help(args: Seq<Seq<char>>) -> bool {
    exists|i: int| 0 <= i < args.len() && (args[i] == "--help"@ || args[i] == "-h"@)
}

pub open spec fn argument_texts(args: Seq<String>) -> Seq<Seq<char>> {
    args.map_values(|a: String| a@)
}

/// Whether the driver should print its help text and stop.
pub fn wants_help(args: &Vec<String>) -> (help: bool)
    ensures
        help == asks_for_help(argument_texts(args@)),
{
    let ghost texts = argument_texts(args@);
    let mut i: usize = 0;
    while i < args.len()
        invariant
            i <= args.len(),
            texts == argument_texts(args@),
            forall|k: int| 0 <= k < i ==> !(texts[k] == "--help"@ || texts[k] == "-h"@),
        decreases args.len() - i,
    {
        if text_is(args[i].as_str(), "--help") || text_is(args[i].as_str(), "-h") {
            assert(texts[i as int] == args@[i as int]@);
            return true;
        }
        i = i + 1;
    }
    false
}

/// What the command line of the replay driver asks for.
#[derive(Debug)]
pub struct Options {
    pub toolchains: Vec<LlvmToolchain>,
    pub corpus_dir: String,
    pub output_dir: String,
}

/// The options read from `args[i..]`, starting from the ones given: each
/// flag takes the next argument as its value and a later flag overrides an
/// earlier one.
pub open spec fn options_from(
    args: Seq<Seq<char>>,
    i: int,
    versions: Seq<u8>,
    corpus_dir: Seq<char>,
    output_dir: Seq<char>,
    default_corpus_dir: Seq<char>,
) -> Result<(Seq<u8>, Seq<char>, Seq<char>), Seq<char>>
    decreases args.len() - i,
{
    if i < 0 || i >= args.len() {
        Ok((versions, corpus_dir, output_dir))
    } else if args[i] == "--toolchains"@ {
        if i + 1 >= args.len() {
            Err("missing value for --toolchains"@)
        } else {
            match requested_versions(args[i + 1]) {
                Err(message) => Err(message),
                Ok(next) => options_from(
                    args,
                    i + 2,
                    next,
                    corpus_dir,
                    output_dir,
                    default_corpus_dir,
                ),
            }
        }
    } else if args[i] == "--corpus-dir"@ {
        if i + 1 >= args.len() {
            Err("missing value for --corpus-dir"@)
        } else {
            options_from(args, i + 2, versions, args[i + 1], output_dir, default_corpus_dir)
        }
    } else if args[i] == "--output-dir"@ {
        if i + 1 >= args.len() {
            Err("missing value for --output-dir"@)
        } else {
            options_from(args, i + 2, versions, corpus_dir, args[i + 1], default_corpus_dir)
        }
    } else {
        Err(unrecognized_argument_text(str_debug(args[i]), default_corpus_dir))
    }
}

impl Options {
    /// Reads the driver's arguments (without the program name). Unset
    /// options keep the fast matrix and the given default directories.
    pub fn parse(args: &Vec<String>, default_corpus_dir: &str, default_output_dir: &str) -> (r:
        Result<Options, String>)
        ensures
            match options_from(
                argument_texts(args@),
                0,
                seq![14u8, 15u8, 16u8, 21u8],
                default_corpus_dir@,
                default_output_dir@,
                default_corpus_dir@,
            ) {
                Ok((versions, corpus_dir, output_dir)) => r matches Ok(o) && toolchain_versions(
                    o.toolchains@,
                ) == versions && o.corpus_dir@ == corpus_dir && o.output_dir@ == output_dir,
                Err(message) => r matches Err(e) && e@ == message,
            },
    {
        let ghost texts = argument_texts(args@);
        let mut toolchains = fast_matrix();
        let mut corpus_dir = String::from_str(default_corpus_dir);
        let mut output_dir = String::from_str(default_output_dir);
        let mut index: usize = 0;
        while index < args.len()
            invariant
                index <= args.len(),
                texts == argument_texts(args@),
                options_from(
                    texts,
                    0,
                    seq![14u8, 15u8, 16u8, 21u8],
                    default_corpus_dir@,
                    default_output_dir@,
                    default_corpus_dir@,
                ) == options_from(
                    texts,
                    index as int,
                    toolchain_versions(toolchains@),
                    corpus_dir@,
                    output_dir@,
                    default_corpus_dir@,
                ),
            decreases args.len() - index,
        {
            let arg = args[index].as_str();
            assert(texts[index as int] == arg@);
            if text_is(arg, "--toolchains") {
                if index + 1 >= args.len() {
                    return Err(String::from_str("missing value for --toolchains"));
                }
                assert(texts[index + 1] == args@[index + 1]@);
                match parse_toolchains(args[index + 1].as_str()) {
                    Ok(parsed) => {
                        toolchains = parsed;
                    },
                    Err(message) => {
                        return Err(message);
                    },
                }
                index = index + 2;
            } else if text_is(arg, "--corpus-dir") {
                if index + 1 >= args.len() {
                    return Err(String::from_str("missing value for --corpus-dir"));
                }
                assert(texts[index + 1] == args@[index + 1]@);
                corpus_dir = args[index + 1].clone();
                index = index + 2;
            } else if text_is(arg, "--output-dir") {
                if index + 1 >= args.len() {
                    return Err(String::from_str("missing value for --output-dir"));
                }
                assert(texts[index + 1] == args@[index + 1]@);
                output_dir = args[index + 1].clone();
                index = index + 2;
            } else {
                let quoted = debug_quoted(arg);
                return Err(unrecognized_argument_message(quoted.as_str(), default_corpus_dir));
            }
        }
        Ok(Options { toolchains, corpus_dir, output_dir })
    }
}

} // verus!

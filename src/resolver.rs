//! Extraction of upstream metadata from fetched payloads: the latest commit,
//! the toolchain channel, and the published version of a component. Fetching
//! is left to the caller; this module says what is fetched and reads what
//! comes back.

use vstd::prelude::*;
use crate::text::{push_char, to_chars};

verus! {

#[verifier::external_type_specification]
#[verifier::external_body]
pub struct ExTomlValue(toml::Value);

#[verifier::external_type_specification]
#[verifier::external_body]
pub struct ExTomlError(toml::de::Error);

/// Failures of metadata resolution.
#[derive(Clone, Copy, Debug, PartialEq, Eq, Structural)]
pub enum ResolveError {
    /// The remote source could not be reached.
    NetworkError,
    /// The payload is malformed, or the expected value cannot be read from it.
    ParseError,
    /// The payload is well formed but lacks the expected key.
    MissingField,
    /// The payload holds no commit.
    NotFound,
    /// No descriptor location can be formed for the component's name.
    UnknownComponent,
}

/// The patch of the latest commit on the upstream default branch.
pub const LATEST_COMMIT_URL: &'static str = "https://github.com/embassy-rs/embassy/commit/main.patch";
/// The upstream toolchain descriptor.
pub const TOOLCHAIN_URL: &'static str = "https://raw.githubusercontent.com/embassy-rs/embassy/main/rust-toolchain.toml";
/// The base of the upstream repository's raw files.
pub const RAW_BASE_URL: &'static str = "https://raw.githubusercontent.com/embassy-rs/embassy/main/";
/// Components named with this prefix live in subdirectories of one directory.
pub const BOOT_PREFIX: &'static str = "embassy-boot-";
pub const BOOT_DIR: &'static str = "embassy-boot/";
pub const MANIFEST_SUFFIX: &'static str = "/Cargo.toml";

/// Whether `c` has the Unicode White_Space property.
pub open spec fn is_white_space(c: char) -> bool {
    let x = c as u32;
    (9 <= x <= 13) || x == 32 || x == 0x85 || x == 0xA0 || x == 0x1680 || (0x2000 <= x <= 0x200A)
        || x == 0x2028 || x == 0x2029 || x == 0x202F || x == 0x205F || x == 0x3000
}

fn white_space(c: char) -> (r: bool)
    ensures
        r == is_white_space(c),
{
    let x = c as u32;
    (9 <= x && x <= 13) || x == 32 || x == 0x85 || x == 0xA0 || x == 0x1680 || (0x2000 <= x && x
        <= 0x200A) || x == 0x2028 || x == 0x2029 || x == 0x202F || x == 0x205F || x == 0x3000
}

/// Whether a line of `t` starts at `i` with `From `, as the header line of a
/// commit patch does.
pub open spec fn from_line_at(t: Seq<char>, i: int) -> bool {
    &&& i == 0 || t[i - 1] == '\n'
    &&& i + 5 <= t.len()
    &&& t.subrange(i, i + 5) == "From "@
}

/// The start of the first `From ` line of `t` at or after `i`.
pub open spec fn first_from_line(t: Seq<char>, i: int) -> Option<int>
    decreases t.len() - i,
{
    if i < 0 || i >= t.len() {
        None
    } else if from_line_at(t, i) {
        Some(i)
    } else {
        first_from_line(t, i + 1)
    }
}

/// The first index at or after `i` that ends the text or the line, or holds
/// a character other than white space.
pub open spec fn skip_blanks(t: Seq<char>, i: int) -> int
    decreases t.len() - i,
{
    if i < 0 || i >= t.len() || t[i] == '\n' || !is_white_space(t[i]) {
        i
    } else {
        skip_blanks(t, i + 1)
    }
}

/// The end of the word that starts at `i`: the first index at or after `i`
/// that ends the text or holds white space.
pub open spec fn word_end(t: Seq<char>, i: int) -> int
    decreases t.len() - i,
{
    if i < 0 || i >= t.len() || is_white_space(t[i]) {
        i
    } else {
        word_end(t, i + 1)
    }
}

/// The commit of a patch: the second word of its first `From ` line.
pub open spec fn commit_of_patch(t: Seq<char>) -> Result<Seq<char>, ResolveError> {
    match first_from_line(t, 0) {
        None => Err(ResolveError::NotFound),
        Some(i) => {
            let k = skip_blanks(t, i + 5);
            if k >= t.len() || t[k] == '\n' {
                Err(ResolveError::ParseError)
            } else {
                Ok(t.subrange(k, word_end(t, k)))
            }
        },
    }
}

/// The end of the `-`-separated segment of `s` that starts at `i`.
pub open spec fn segment_end(s: Seq<char>, i: int) -> int
    decreases s.len() - i,
{
    if i < 0 || i >= s.len() || s[i] == '-' {
        i
    } else {
        segment_end(s, i + 1)
    }
}

/// Where a component's package descriptor lives in the upstream repository.
/// Components named `embassy-boot-<x>` live under `embassy-boot/<x>`, where
/// `<x>` is the third `-`-separated segment of the name; every other
/// component lives in the directory of its name.
pub open spec fn descriptor_path(name: Seq<char>) -> Result<Seq<char>, ResolveError> {
    let p = BOOT_PREFIX@;
    if name.len() == 0 {
        Err(ResolveError::UnknownComponent)
    } else if p.len() <= name.len() && name.take(p.len() as int) == p {
        let sub = name.subrange(p.len() as int, segment_end(name, p.len() as int));
        if sub.len() == 0 {
            Err(ResolveError::UnknownComponent)
        } else {
            Ok(BOOT_DIR@ + sub + MANIFEST_SUFFIX@)
        }
    } else {
        Ok(name + MANIFEST_SUFFIX@)
    }
}

/// What parsing `text` as a TOML document gives: its top-level table, or
/// nothing when the text is not a valid document.
pub uninterp spec fn toml_document(text: Seq<char>) -> Option<toml::Value>;

/// The entry under `key` of a TOML table; nothing when `v` is not a table or
/// has no such key.
pub uninterp spec fn toml_entry(v: toml::Value, key: Seq<char>) -> Option<toml::Value>;

/// The string a TOML value holds; nothing when it is not a string.
pub uninterp spec fn toml_string(v: toml::Value) -> Option<Seq<char>>;

/// Relies on toml::from_str: parses a document into its top-level table,
/// which depends on the text alone.
#[verifier::external_body]
fn parse_toml(text: &str) -> (r: Result<toml::Value, toml::de::Error>)
    ensures
        r matches Ok(v) ==> toml_document(text@) == Some(v),
        r is Err ==> toml_document(text@) is None,
{
    toml::from_str::<toml::Table>(text).map(toml::Value::Table)
}

/// Relies on toml::Value::get with a string key: the entry under the key when
/// the value is a table that has it.
#[verifier::external_body]
fn toml_get<'a>(v: &'a toml::Value, key: &str) -> (r: Option<&'a toml::Value>)
    ensures
        r matches Some(e) ==> toml_entry(*v, key@) == Some(*e),
        r is None ==> toml_entry(*v, key@) is None,
{
    v.get(key)
}

/// Relies on toml::Value::as_str: the string held by a string value.
#[verifier::external_body]
fn toml_as_str<'a>(v: &'a toml::Value) -> (r: Option<&'a str>)
    ensures
        r matches Some(s) ==> toml_string(*v) == Some(s@),
        r is None ==> toml_string(*v) is None,
{
    v.as_str()
}

/// The string under `table`.`key` of a parsed TOML document.
pub open spec fn field_of(doc: toml::Value, table: Seq<char>, key: Seq<char>) -> Result<Seq<char>, ResolveError> {
    match toml_entry(doc, table) {
        None => Err(ResolveError::MissingField),
        Some(t) => match toml_entry(t, key) {
            None => Err(ResolveError::MissingField),
            Some(v) => match toml_string(v) {
                None => Err(ResolveError::ParseError),
                Some(s) => Ok(s),
            },
        },
    }
}

/// The string under `table`.`key` of a TOML text.
pub open spec fn string_field(text: Seq<char>, table: Seq<char>, key: Seq<char>) -> Result<Seq<char>, ResolveError> {
    match toml_document(text) {
        None => Err(ResolveError::ParseError),
        Some(doc) => field_of(doc, table, key),
    }
}

pub open spec fn result_view(r: Result<String, ResolveError>) -> Result<Seq<char>, ResolveError> {
    match r {
        Ok(s) => Ok(s@),
        Err(e) => Err(e),
    }
}

/// Reads the string under `table`.`key` of a parsed TOML document: missing
/// keys give `MissingField`, a value that is not a string `ParseError`.
pub fn toml_string_field(doc: &toml::Value, table: &str, key: &str) -> (r: Result<String, ResolveError>)
    ensures
        result_view(r) == field_of(*doc, table@, key@),
{
    match toml_get(doc, table) {
        None => Err(ResolveError::MissingField),
        Some(t) => match toml_get(t, key) {
            None => Err(ResolveError::MissingField),
            Some(v) => match toml_as_str(v) {
                None => Err(ResolveError::ParseError),
                Some(s) => Ok(String::from_str(s)),
            },
        },
    }
}

fn read_string_field(text: &str, table: &str, key: &str) -> (r: Result<String, ResolveError>)
    ensures
        result_view(r) == string_field(text@, table@, key@),
{
    match parse_toml(text) {
        Err(_) => Err(ResolveError::ParseError),
        Ok(doc) => toml_string_field(&doc, table, key),
    }
}

fn copy_range(t: &Vec<char>, from: usize, to: usize) -> (r: String)
    requires
        from <= to <= t.len(),
    ensures
        r@ == t@.subrange(from as int, to as int),
{
    let mut out = String::new();
    let mut j = from;
    while j < to
        invariant
            from <= j <= to <= t.len(),
            out@ == t@.subrange(from as int, j as int),
        decreases to - j,
    {
        push_char(&mut out, t[j]);
        proof {
            assert(t@.subrange(from as int, j + 1) =~= t@.subrange(from as int, j as int).push(t@[j as int]));
        }
        j = j + 1;
    }
    out
}

/// Reads and queries of the upstream framework repository.
pub struct Git;

impl Git {
    /// The commit named by a commit patch: the second word of its first line
    /// that starts with `From `. `NotFound` when no line does, `ParseError`
    /// when that line has no second word.
    pub fn latest_commit_from_patch(patch: &str) -> (r: Result<String, ResolveError>)
        ensures
            result_view(r) == commit_of_patch(patch@),
    {
        let t = to_chars(patch);
        let n = t.len();
        let mut i: usize = 0;
        let mut found = false;
        while i < n
            invariant_except_break
                !found,
            invariant
                t@ == patch@,
                n == t.len(),
                0 <= i <= n,
                first_from_line(t@, 0) == first_from_line(t@, i as int),
            ensures
                found ==> i + 5 <= n && first_from_line(t@, 0) == Some(i as int),
                !found ==> i == n,
            decreases n - i,
        {
            proof {
                reveal_strlit("From ");
            }
            if (i == 0 || t[i - 1] == '\n') && n - i >= 5 && t[i] == 'F' && t[i + 1] == 'r' && t[i
                + 2] == 'o' && t[i + 3] == 'm' && t[i + 4] == ' ' {
                proof {
                    assert(t@.subrange(i as int, i + 5) =~= "From "@);
                }
                found = true;
                break;
            }
            proof {
                if i + 5 <= n && t@.subrange(i as int, i + 5) == "From "@ {
                    assert(t@.subrange(i as int, i + 5)[0] == t@[i as int]);
                    assert(t@.subrange(i as int, i + 5)[1] == t@[i + 1]);
                    assert(t@.subrange(i as int, i + 5)[2] == t@[i + 2]);
                    assert(t@.subrange(i as int, i + 5)[3] == t@[i + 3]);
                    assert(t@.subrange(i as int, i + 5)[4] == t@[i + 4]);
                }
            }
            i = i + 1;
        }
        if !found {
            return Err(ResolveError::NotFound);
        }
        let mut k = i + 5;
        while k < n && t[k] != '\n' && white_space(t[k])
            invariant
                t@ == patch@,
                n == t.len(),
                i + 5 <= k <= n,
                skip_blanks(t@, i + 5) == skip_blanks(t@, k as int),
            decreases n - k,
        {
            k = k + 1;
        }
        if k >= n || t[k] == '\n' {
            return Err(ResolveError::ParseError);
        }
        let mut e = k;
        while e < n && !white_space(t[e])
            invariant
                t@ == patch@,
                n == t.len(),
                k <= e <= n,
                word_end(t@, k as int) == word_end(t@, e as int),
            decreases n - e,
        {
            e = e + 1;
        }
        Ok(copy_range(&t, k, e))
    }

    /// The toolchain channel declared by a toolchain descriptor: the string
    /// under `toolchain`.`channel`.
    pub fn toolchain_channel_from(descriptor: &str) -> (r: Result<String, ResolveError>)
        ensures
            result_view(r) == string_field(descriptor@, "toolchain"@, "channel"@),
    {
        read_string_field(descriptor, "toolchain", "channel")
    }

    /// The version declared by a package descriptor: the string under
    /// `package`.`version`.
    pub fn crate_version_from(descriptor: &str) -> (r: Result<String, ResolveError>)
        ensures
            result_view(r) == string_field(descriptor@, "package"@, "version"@),
    {
        read_string_field(descriptor, "package", "version")
    }

    /// Where a component's package descriptor lives in the upstream repository.
    pub fn crate_manifest_path(name: &str) -> (r: Result<String, ResolveError>)
        ensures
            result_view(r) == descriptor_path(name@),
    {
        let t = to_chars(name);
        let p = to_chars(BOOT_PREFIX);
        if t.len() == 0 {
            return Err(ResolveError::UnknownComponent);
        }
        let mut prefixed = p.len() <= t.len();
        let mut j: usize = 0;
        while prefixed && j < p.len()
            invariant
                t@ == name@,
                p@ == BOOT_PREFIX@,
                0 <= j <= p.len(),
                prefixed ==> p.len() <= t.len() && t@.take(j as int) == p@.take(j as int),
                !prefixed ==> !(p.len() <= t.len() && t@.take(p.len() as int) == p@),
            decreases p.len() - j,
        {
            if t[j] != p[j] {
                proof {
                    assert(t@.take(p.len() as int)[j as int] == t@[j as int]);
                }
                prefixed = false;
                j = p.len();
            } else {
                proof {
                    assert(t@.take(j + 1) =~= t@.take(j as int).push(t@[j as int]));
                    assert(p@.take(j + 1) =~= p@.take(j as int).push(p@[j as int]));
                }
                j = j + 1;
            }
        }
        if prefixed {
            proof {
                assert(p@.take(p.len() as int) =~= p@);
            }
            let start = p.len();
            let mut end = start;
            while end < t.len() && t[end] != '-'
                invariant
                    t@ == name@,
                    start <= end <= t.len(),
                    segment_end(t@, start as int) == segment_end(t@, end as int),
                decreases t.len() - end,
            {
                end = end + 1;
            }
            if end == start {
                return Err(ResolveError::UnknownComponent);
            }
            let sub = copy_range(&t, start, end);
            let mut path = String::from_str(BOOT_DIR);
            path.append(sub.as_str());
            path.append(MANIFEST_SUFFIX);
            Ok(path)
        } else {
            let mut path = String::from_str(name);
            path.append(MANIFEST_SUFFIX);
            Ok(path)
        }
    }

    /// The address of a component's package descriptor.
    pub fn crate_manifest_url(name: &str) -> (r: Result<String, ResolveError>)
        ensures
            result_view(r) == (match descriptor_path(name@) {
                Ok(p) => Ok(RAW_BASE_URL@ + p),
                Err(e) => Err(e),
            }),
    {
        match Git::crate_manifest_path(name) {
            Ok(p) => {
                let mut url = String::from_str(RAW_BASE_URL);
                url.append(p.as_str());
                Ok(url)
            },
            Err(e) => Err(e),
        }
    }
}

} // verus!

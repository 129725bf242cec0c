//! Choice between the two text-recognition engines: the system one
//! (available on Windows only) and the bundled neural one.

use vstd::prelude::*;
use sha2::Digest;
use crate::categorizer::opt_view;
use crate::decimal::{parse_u64, spec_parse_u64};
use crate::platform::Platform;
use crate::text::{
    trim_seq, ascii_lower_seq, str_to_chars, trim_chars, ascii_lower_chars, chars_eq, chars_to_string,
    spec_words, split_words, views, strip_suffixes, trim_end_matches_chars,
};

verus! {

/// The recognition engine, as stored under the `screenshot_ocr_engine`
/// setting.
#[derive(Debug, Clone, Copy, PartialEq, Eq, Structural)]
pub enum EngineKind {
    /// The engine built into the operating system.
    System,
    /// The bundled neural recogniser.
    Enhanced,
}

pub open spec fn spec_as_str(k: EngineKind) -> Seq<char> {
    match k {
        EngineKind::System => "system"@,
        EngineKind::Enhanced => "enhanced"@,
    }
}

/// How a setting value reads: trimmed and ASCII-lower-cased, `enhanced`
/// and `onnx` name the neural engine; anything else, the empty value
/// included, falls back to the system engine.
pub open spec fn spec_parse(s: Seq<char>) -> EngineKind {
    let t = ascii_lower_seq(trim_seq(s));
    if t == "enhanced"@ || t == "onnx"@ {
        EngineKind::Enhanced
    } else {
        EngineKind::System
    }
}

/// The system engine exists on Windows only.
pub open spec fn spec_system_engine_available(p: Platform) -> bool {
    p == Platform::Windows
}

/// The engine that actually runs for a setting value on platform `p`: the
/// parsed engine, except that the system engine is replaced by the neural
/// one where the platform has none.
pub open spec fn spec_effective_kind(s: Seq<char>, p: Platform) -> EngineKind {
    match spec_parse(s) {
        EngineKind::System => if spec_system_engine_available(p) {
            EngineKind::System
        } else {
            EngineKind::Enhanced
        },
        EngineKind::Enhanced => EngineKind::Enhanced,
    }
}

/// The default engine: the system one where it exists, else the neural one.
pub open spec fn spec_default_engine(p: Platform) -> EngineKind {
    if spec_system_engine_available(p) {
        EngineKind::System
    } else {
        EngineKind::Enhanced
    }
}

impl EngineKind {
    /// The setting value of the engine: `system` or `enhanced`.
    pub fn as_str(self) -> (r: &'static str)
        ensures
            r@ == spec_as_str(self),
    {
        match self {
            EngineKind::System => "system",
            EngineKind::Enhanced => "enhanced",
        }
    }

    /// Reads a setting value (see [`spec_parse`]).
    pub fn parse(s: &str) -> (r: Self)
        ensures
            r == spec_parse(s@),
    {
        let t = ascii_lower_chars(&trim_chars(&str_to_chars(s)));
        let enhanced = str_to_chars("enhanced");
        let onnx = str_to_chars("onnx");
        if chars_eq(&t, &enhanced) || chars_eq(&t, &onnx) {
            EngineKind::Enhanced
        } else {
            EngineKind::System
        }
    }
}

/// Whether platform `p` has a system recognition engine.
pub fn system_engine_available(p: Platform) -> (r: bool)
    ensures
        r == spec_system_engine_available(p),
{
    p == Platform::Windows
}

/// The default engine on platform `p` (see [`spec_default_engine`]).
pub fn default_engine(p: Platform) -> (r: EngineKind)
    ensures
        r == spec_default_engine(p),
{
    if system_engine_available(p) {
        EngineKind::System
    } else {
        EngineKind::Enhanced
    }
}

/// The engine that runs for setting value `s` on platform `p` (see
/// [`spec_effective_kind`]).
pub fn effective_kind(s: &str, p: Platform) -> (r: EngineKind)
    ensures
        r == spec_effective_kind(s@, p),
{
    match EngineKind::parse(s) {
        EngineKind::System => if system_engine_available(p) {
            EngineKind::System
        } else {
            EngineKind::Enhanced
        },
        EngineKind::Enhanced => EngineKind::Enhanced,
    }
}

/// A text without white space is its own trimmed, lower-cased form when it
/// holds no upper-case ASCII letter.
proof fn lemma_plain_word(s: Seq<char>)
    requires
        s.len() > 0,
        forall|i: int| 0 <= i < s.len() ==> 'a' <= #[trigger] s[i] <= 'z',
    ensures
        ascii_lower_seq(trim_seq(s)) == s,
{
    assert(trim_seq(s) == s);
    assert(ascii_lower_seq(s) =~= s);
}

/// Reading back the setting value of an engine gives that engine.
pub proof fn law_parse_as_str(k: EngineKind)
    ensures
        spec_parse(spec_as_str(k)) == k,
{
    reveal_strlit("system");
    reveal_strlit("enhanced");
    reveal_strlit("onnx");
    lemma_plain_word(spec_as_str(k));
    if k == EngineKind::System {
        assert("system"@ != "enhanced"@);
        assert("system"@ != "onnx"@);
    }
}

/// Normalising a setting value twice gives what normalising it once gave.
pub proof fn law_effective_kind_idempotent(s: Seq<char>, p: Platform)
    ensures
        spec_effective_kind(spec_as_str(spec_effective_kind(s, p)), p) == spec_effective_kind(s, p),
{
    law_parse_as_str(spec_effective_kind(s, p));
}

/// The engine that runs is one the platform has: the system engine only
/// where it exists.
pub proof fn law_effective_kind_usable(s: Seq<char>, p: Platform)
    ensures
        spec_effective_kind(s, p) == EngineKind::System ==> spec_system_engine_available(p),
        spec_default_engine(p) == EngineKind::System ==> spec_system_engine_available(p),
{
}

/// Where the neural engine's files were found (absent ones are `None`).
#[derive(Debug, Clone, Default)]
pub struct EnginePaths {
    /// Absolute path of the ONNX runtime library.
    pub ort_lib: Option<String>,
    /// Folder holding the detection and recognition models.
    pub models_dir: Option<String>,
}

impl EnginePaths {
    /// The runtime library's path, when it was found.
    pub fn ort_lib_path(&self) -> (r: Option<&str>)
        ensures
            match self.ort_lib {
                Some(p) => r matches Some(q) && q@ == p@,
                None => r is None,
            },
    {
        match &self.ort_lib {
            Some(p) => Some(p.as_str()),
            None => None,
        }
    }

    /// The models folder, when it was found.
    pub fn models_path(&self) -> (r: Option<&str>)
        ensures
            match self.models_dir {
                Some(p) => r matches Some(q) && q@ == p@,
                None => r is None,
            },
    {
        match &self.models_dir {
            Some(p) => Some(p.as_str()),
            None => None,
        }
    }

    /// The neural engine can run: the library was found and is a file, and
    /// the models folder was found and holds both models (`lib_is_file` and
    /// `models_ready` are the disk checks of those two paths).
    pub fn enhanced_ready(&self, lib_is_file: bool, models_ready: bool) -> (r: bool)
        ensures
            r == (self.ort_lib is Some && lib_is_file && self.models_dir is Some && models_ready),
    {
        self.ort_lib.is_some() && lib_is_file && self.models_dir.is_some() && models_ready
    }
}

pub open spec fn spec_ort_lib_name(p: Platform) -> Seq<char> {
    match p {
        Platform::Windows => "onnxruntime.dll"@,
        Platform::MacOS => "libonnxruntime.dylib"@,
        _ => "libonnxruntime.so"@,
    }
}

/// File name of the ONNX runtime library on platform `p`.
pub fn ort_lib_name(p: Platform) -> (r: &'static str)
    ensures
        r@ == spec_ort_lib_name(p),
{
    match p {
        Platform::Windows => "onnxruntime.dll",
        Platform::MacOS => "libonnxruntime.dylib",
        _ => "libonnxruntime.so",
    }
}

pub open spec fn default_download_base() -> Seq<char> {
    "https://github.com/Slk90s/screentime-pro/releases/download/ocr-runtime"@
}

/// Where the runtime library is downloaded from: the override when it is
/// set and not blank, else the project's release folder.
pub fn download_base(env_override: Option<String>) -> (r: String)
    ensures
        match env_override {
            Some(s) if trim_seq(s@).len() > 0 => r@ == s@,
            _ => r@ == default_download_base(),
        },
{
    match env_override {
        Some(s) => {
            if trim_chars(&str_to_chars(s.as_str())).len() > 0 {
                return s;
            }
        },
        None => {},
    }
    "https://github.com/Slk90s/screentime-pro/releases/download/ocr-runtime".to_string()
}

/// The download address: the base without trailing slashes, a slash, and
/// the library's file name.
pub open spec fn spec_download_url(base: Seq<char>, name: Seq<char>) -> Seq<char> {
    strip_suffixes(base, seq!['/']) + seq!['/'] + name
}

pub fn download_url(base: &str, name: &str) -> (r: String)
    ensures
        r@ == spec_download_url(base@, name@),
{
    let slash = vec!['/'];
    assert(slash@ =~= seq!['/']);
    let mut v = trim_end_matches_chars(&str_to_chars(base), &slash);
    v.push('/');
    let mut n = str_to_chars(name);
    v.append(&mut n);
    assert(v@ =~= spec_download_url(base@, name@));
    chars_to_string(v.as_slice())
}

/// The SHA-256 digest of `data`: what `sha2::Sha256` computes, 32 bytes.
pub uninterp spec fn sha256_digest(data: Seq<u8>) -> Seq<u8>;

/// `sha2::Sha256::digest`: the SHA-256 digest of `data`, named by
/// [`sha256_digest`]; the crate's output size is 32 bytes.
#[verifier::external_body]
fn sha256(data: &[u8]) -> (r: Vec<u8>)
    ensures
        r@ == sha256_digest(data@),
        r@.len() == 32,
{
    sha2::Sha256::digest(data).to_vec()
}

pub open spec fn hex_nibble(d: nat) -> char {
    if d < 10 {
        (d + 48) as char
    } else {
        (d + 87) as char
    }
}

/// Two lower-case hexadecimal digits per byte (`format!("{:x}", digest)`).
pub open spec fn hex_bytes(b: Seq<u8>) -> Seq<char>
    decreases b.len(),
{
    if b.len() == 0 {
        Seq::empty()
    } else {
        hex_bytes(b.drop_last()) + seq![hex_nibble(b.last() as nat / 16), hex_nibble(b.last() as nat % 16)]
    }
}

fn nibble(d: u8) -> (c: char)
    requires
        d < 16,
    ensures
        c == hex_nibble(d as nat),
{
    if d < 10 {
        (d + 48) as char
    } else {
        (d + 87) as char
    }
}

/// Lower-case hexadecimal of `b` (see [`hex_bytes`]).
pub fn to_hex(b: &[u8]) -> (r: Vec<char>)
    ensures
        r@ == hex_bytes(b@),
{
    let mut r: Vec<char> = Vec::new();
    let mut k: usize = 0;
    while k < b.len()
        invariant
            k <= b@.len(),
            r@ == hex_bytes(b@.subrange(0, k as int)),
        decreases b.len() - k,
    {
        assert(b@.subrange(0, k + 1).drop_last() =~= b@.subrange(0, k as int));
        r.push(nibble(b[k] / 16));
        r.push(nibble(b[k] % 16));
        assert(r@ =~= hex_bytes(b@.subrange(0, k + 1)));
        k = k + 1;
    }
    assert(b@.subrange(0, b@.len() as int) =~= b@);
    r
}

/// The outcome of checking a downloaded library against its `.sha256`
/// text.
#[derive(Debug, Clone, Copy, PartialEq, Eq, Structural)]
pub enum ChecksumVerdict {
    /// The text names no digest: the check is skipped.
    NoChecksum,
    Match,
    Mismatch,
}

/// The digest a `.sha256` text names: its first word, ASCII-lower-cased
/// (empty when the text has no word).
pub open spec fn expected_digest(text: Seq<char>) -> Seq<char> {
    if spec_words(text).len() > 0 {
        ascii_lower_seq(spec_words(text)[0])
    } else {
        Seq::empty()
    }
}

pub open spec fn spec_verdict(digest: Seq<u8>, text: Seq<char>) -> ChecksumVerdict {
    if expected_digest(text).len() == 0 {
        ChecksumVerdict::NoChecksum
    } else if hex_bytes(digest) == expected_digest(text) {
        ChecksumVerdict::Match
    } else {
        ChecksumVerdict::Mismatch
    }
}

/// Compares a digest with the one a `.sha256` text names.
pub fn verdict_for_digest(digest: &[u8], sha_text: &str) -> (r: ChecksumVerdict)
    ensures
        r == spec_verdict(digest@, sha_text@),
{
    let words = split_words(&str_to_chars(sha_text));
    assert(views(words@).len() == words@.len());
    if words.len() == 0 {
        return ChecksumVerdict::NoChecksum;
    }
    assert(views(words@)[0] == words@[0]@);
    let expected = ascii_lower_chars(&words[0]);
    if expected.len() == 0 {
        return ChecksumVerdict::NoChecksum;
    }
    let got = to_hex(digest);
    if chars_eq(&got, &expected) {
        ChecksumVerdict::Match
    } else {
        ChecksumVerdict::Mismatch
    }
}

/// Checks downloaded bytes against a `.sha256` text: the SHA-256 digest of
/// `data` against the digest the text names.
pub fn checksum_verdict(data: &[u8], sha_text: &str) -> (r: ChecksumVerdict)
    ensures
        r == spec_verdict(sha256_digest(data@), sha_text@),
{
    let d = sha256(data);
    verdict_for_digest(d.as_slice(), sha_text)
}

/// `v` clamped to `lo..=hi`.
pub open spec fn clamp(v: int, lo: int, hi: int) -> int {
    if v < lo {
        lo
    } else if v > hi {
        hi
    } else {
        v
    }
}

/// The thread count given in the environment: the text, without
/// surrounding whitespace, read as a `usize`.
pub open spec fn thread_override(env: Option<Seq<char>>) -> Option<int> {
    match env {
        Some(s) => match spec_parse_u64(trim_seq(s)) {
            Some(v) => if v <= usize::MAX {
                Some(v as int)
            } else {
                None
            },
            None => None,
        },
        None => None,
    }
}

/// The number of threads a recognition session runs on: the number given
/// in the environment, kept within 1 to 32; else the machine's
/// parallelism kept within 2 to 4; else 4.
pub open spec fn spec_ort_threads(env: Option<Seq<char>>, available: Option<usize>) -> int {
    match thread_override(env) {
        Some(v) => clamp(v, 1, 32),
        None => match available {
            Some(n) => clamp(n as int, 2, 4),
            None => 4,
        },
    }
}

/// The thread count (see [`spec_ort_threads`]) from the value of the
/// override variable and the machine's available parallelism.
pub fn ort_thread_count(env: Option<&str>, available: Option<usize>) -> (r: usize)
    ensures
        r == spec_ort_threads(opt_view(env), available),
        1 <= r <= 32,
{
    if let Some(text) = env {
        let t = chars_to_string(trim_chars(&str_to_chars(text)).as_slice());
        if let Some(v) = parse_u64(t.as_str()) {
            if v <= usize::MAX as u64 {
                return if v < 1 {
                    1
                } else if v > 32 {
                    32
                } else {
                    v as usize
                };
            }
        }
    }
    match available {
        Some(n) => if n < 2 {
            2
        } else if n > 4 {
            4
        } else {
            n
        },
        None => 4,
    }
}

} // verus!

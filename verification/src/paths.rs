//! Data folder and file names, and the per-instance autostart value name.
use vstd::prelude::*;
use crate::text::{append_str, chars_of, string_of};

verus! {

/// The data folder beside the executable; also the top folder of a backup zip.
pub const DATA_DIR_NAME: &'static str = "pcm";

/// The SQLite database file.
pub const DB_FILENAME: &'static str = "data.db";

/// The port configuration file.
pub const CONFIG_FILENAME: &'static str = "config.json";

/// The restore guide placed at the top of a backup zip.
pub const README_FILENAME: &'static str = "복원방법.txt";

/// The fixed autostart value name used before names were made per instance.
pub const LEGACY_AUTOSTART_VALUE_NAME: &'static str = "PCM";

/// A path with every `/` turned into `\`.
pub open spec fn backslashed(s: Seq<char>) -> Seq<char> {
    s.map_values(|c: char| if c == '/' { '\\' } else { c })
}

/// The lower-case form of a string, as `str::to_lowercase` gives it.
pub uninterp spec fn lowercase(s: Seq<char>) -> Seq<char>;

/// `str::to_lowercase`. Its result is named, not restated: it follows the Unicode
/// case tables and the final-sigma rule, and depends on the text alone.
#[verifier::external_body]
fn to_lowercase_text(s: &str) -> (r: String)
    ensures
        r@ == lowercase(s@),
{
    s.to_lowercase()
}

/// FNV-1a, 64 bits, over a byte sequence.
pub open spec fn fnv1a(bytes: Seq<u8>) -> u64
    decreases bytes.len(),
{
    if bytes.len() == 0 {
        0xcbf2_9ce4_8422_2325u64
    } else {
        (fnv1a(bytes.drop_last()) ^ (bytes.last() as u64)).wrapping_mul(0x0000_0100_0000_01b3u64)
    }
}

/// A lower-case hexadecimal digit.
pub open spec fn hex_digit(d: int) -> char {
    if d < 10 {
        ('0' as int + d) as char
    } else {
        ('a' as int + d - 10) as char
    }
}

/// The last `n` hexadecimal digits of `v`, zero-padded (`{:0n$x}` for `v < 16^n`).
pub open spec fn hex_text(v: nat, n: nat) -> Seq<char>
    decreases n,
{
    if n == 0 {
        Seq::empty()
    } else {
        hex_text(v / 16, (n - 1) as nat).push(hex_digit((v % 16) as int))
    }
}

/// The value name for an already normalised executable path.
pub open spec fn value_name_text(normalized: Seq<char>) -> Seq<char> {
    "PCM-"@ + hex_text(fnv1a(vstd::utf8::encode_utf8(normalized)) as nat, 16)
}

fn hex_char(d: u64) -> (c: char)
    requires
        d < 16,
    ensures
        c == hex_digit(d as int),
{
    let b: u8 = d as u8;
    if b < 10 {
        (b + 48u8) as char
    } else {
        (b + 87u8) as char
    }
}

fn push_hex(out: &mut Vec<char>, v: u64, n: u64)
    ensures
        final(out)@ == old(out)@ + hex_text(v as nat, n as nat),
    decreases n,
{
    if n > 0 {
        push_hex(out, v / 16, n - 1);
        out.push(hex_char(v % 16));
    } else {
        assert(hex_text(v as nat, 0) =~= Seq::<char>::empty());
    }
}

/// `PCM-` and the FNV-1a hash of the path's UTF-8 bytes in 16 hex digits.
pub fn hashed_value_name(normalized: &str) -> (r: String)
    ensures
        r@ == value_name_text(normalized@),
{
    let bytes = normalized.as_bytes();
    let mut hash: u64 = 0xcbf2_9ce4_8422_2325;
    let mut i: usize = 0;
    while i < bytes.len()
        invariant
            i <= bytes@.len(),
            bytes@ == vstd::utf8::encode_utf8(normalized@),
            hash == fnv1a(bytes@.take(i as int)),
        decreases bytes@.len() - i,
    {
        assert(bytes@.take(i + 1).drop_last() =~= bytes@.take(i as int));
        hash = (hash ^ (bytes[i] as u64)).wrapping_mul(0x0000_0100_0000_01b3);
        i = i + 1;
    }
    assert(bytes@.take(i as int) =~= bytes@);
    let mut v = chars_of("PCM-");
    push_hex(&mut v, hash, 16);
    string_of(&v)
}

/// The autostart value name for an executable path: separators unified to `\`,
/// lower-cased, then hashed, so each installed copy gets a stable name of its own.
pub fn autostart_value_name(exe_path: &str) -> (r: String)
    ensures
        r@ == value_name_text(lowercase(backslashed(exe_path@))),
{
    let cs = chars_of(exe_path);
    let mut v: Vec<char> = Vec::new();
    let mut i: usize = 0;
    while i < cs.len()
        invariant
            i <= cs@.len(),
            cs@ == exe_path@,
            v@ == backslashed(cs@.take(i as int)),
        decreases cs@.len() - i,
    {
        let c = cs[i];
        if c == '/' {
            v.push('\\');
        } else {
            v.push(c);
        }
        i = i + 1;
        assert(backslashed(cs@.take(i as int)) =~= backslashed(cs@.take(i - 1)).push(
            if c == '/' { '\\' } else { c },
        ));
    }
    assert(cs@.take(i as int) =~= cs@);
    let s = string_of(&v);
    let lower = to_lowercase_text(s.as_str());
    hashed_value_name(lower.as_str())
}

/// The path with every leading `/` removed.
pub open spec fn without_leading_slashes(p: Seq<char>) -> Seq<char>
    decreases p.len(),
{
    if p.len() > 0 && p[0] == '/' {
        without_leading_slashes(p.drop_first())
    } else {
        p
    }
}

/// The embedded file a request path asks for: the path without its leading
/// slashes, or `index.html` for the root.
pub open spec fn asset_path_spec(p: Seq<char>) -> Seq<char> {
    if without_leading_slashes(p).len() == 0 {
        "index.html"@
    } else {
        without_leading_slashes(p)
    }
}

/// The embedded file a request path asks for (a missing file falls back to
/// `index.html`, the single-page application's entry).
pub fn asset_path(path: &str) -> (r: String)
    ensures
        r@ == asset_path_spec(path@),
{
    let v = chars_of(path);
    let mut i: usize = 0;
    assert(v@.subrange(0, v@.len() as int) =~= v@);
    while i < v.len() && v[i] == '/'
        invariant
            i <= v@.len(),
            without_leading_slashes(v@) == without_leading_slashes(v@.subrange(i as int, v@.len() as int)),
        decreases v@.len() - i,
    {
        assert(v@.subrange(i as int, v@.len() as int).drop_first() =~= v@.subrange(i + 1, v@.len() as int));
        i = i + 1;
    }
    let mut rest: Vec<char> = Vec::new();
    let mut j: usize = i;
    while j < v.len()
        invariant
            i <= j <= v@.len(),
            rest@ == v@.subrange(i as int, j as int),
        decreases v@.len() - j,
    {
        rest.push(v[j]);
        j = j + 1;
        assert(rest@ =~= v@.subrange(i as int, j as int));
    }
    assert(without_leading_slashes(rest@) == rest@);
    if rest.len() == 0 {
        "index.html".to_owned()
    } else {
        string_of(&rest)
    }
}

} // verus!

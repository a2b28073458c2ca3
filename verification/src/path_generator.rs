//! Storage-key generation and path safety: sanitized display filenames,
//! date-partitioned object keys, the traversal checks, and human-readable
//! size formatting.

use vstd::prelude::*;

use crate::clock::today_utc;
use crate::error::FileError;
use crate::ids::{is_uuid_char, new_uuid_string};
use crate::text::{
    chars_vec, contains_chars, contains_seq, dec_padded, dec_rep, lemma_contains_pair,
    lemma_contains_single, lemma_dec_padded_digits, lemma_dec_rep_digits, lemma_dec_rep_len_bounds,
    lemma_filter_prefix,
    string_from_chars, u64_to_dec, u64_to_dec_padded,
};
use crate::validator::{spec_extension_accepted, FileValidator};
use vstd::string::StringExecFns;

verus! {

/// Classification of a single character as in std's `is_alphanumeric`; it
/// depends on the character alone.
pub uninterp spec fn char_is_alphanumeric(c: char) -> bool;

/// Relies on char::is_alphanumeric of std: the Unicode alphanumeric
/// classification of a character. On the ASCII range the classification
/// is documented exactly: the decimal digits and the basic Latin letters,
/// nothing else.
#[verifier::external_body]
fn is_alphanumeric_char(c: char) -> (r: bool)
    ensures
        r == char_is_alphanumeric(c),
        (c as u32) < 128 ==> r == (('0' <= c && c <= '9') || ('a' <= c && c <= 'z') || ('A' <= c
            && c <= 'Z')),
{
    c.is_alphanumeric()
}

/// Characters kept by filename sanitization: alphanumerics, dot, dash,
/// underscore and space.
pub open spec fn spec_keep_char(c: char) -> bool {
    char_is_alphanumeric(c) || c == '.' || c == '-' || c == '_' || c == ' '
}

/// A sanitized filename: the kept characters, capped at 255.
pub open spec fn spec_sanitize(s: Seq<char>) -> Seq<char> {
    let f = s.filter(|c: char| spec_keep_char(c));
    if f.len() <= 255 {
        f
    } else {
        f.take(255)
    }
}

/// A storage key is rejected when it carries a parent-directory step,
/// starts like an absolute path, or names a drive.
pub open spec fn spec_storage_key_rejected(s: Seq<char>) -> bool {
    ||| contains_seq(s, seq!['.', '.'])
    ||| (s.len() > 0 && (s[0] == '/' || s[0] == '\\'))
    ||| (s.len() >= 2 && s[1] == ':')
}

/// A path is safe when it holds none of the forbidden patterns (parent
/// steps, doubled separators, null bytes, shell metacharacters), is
/// relative, and names no drive.
pub open spec fn spec_is_safe_path(s: Seq<char>) -> bool {
    &&& !contains_seq(s, seq!['.', '.'])
    &&& !contains_seq(s, seq!['/', '/'])
    &&& !contains_seq(s, seq!['\\', '\\'])
    &&& !contains_seq(s, seq!['\u{0}'])
    &&& !contains_seq(s, seq!['|'])
    &&& !contains_seq(s, seq!['&'])
    &&& !contains_seq(s, seq![';'])
    &&& !(s.len() > 0 && (s[0] == '/' || s[0] == '\\'))
    &&& !(s.len() >= 2 && s[1] == ':')
}

/// The shape of a generated storage key: a four-digit year, a two-digit
/// month and a two-digit day separated by '/', then a 36-character
/// identifier, a dot and the extension.
pub open spec fn spec_key_layout(key: Seq<char>, ext: Seq<char>) -> bool {
    &&& key.len() == 48 + ext.len()
    &&& (forall|i: int| 0 <= i < 4 ==> '0' <= #[trigger] key[i] <= '9')
    &&& key[4] == '/'
    &&& (forall|i: int| 5 <= i < 7 ==> '0' <= #[trigger] key[i] <= '9')
    &&& key[7] == '/'
    &&& (forall|i: int| 8 <= i < 10 ==> '0' <= #[trigger] key[i] <= '9')
    &&& key[10] == '/'
    &&& (forall|i: int| 11 <= i < 47 ==> is_uuid_char(#[trigger] key[i]))
    &&& key[47] == '.'
    &&& key.subrange(48, key.len() as int) == ext
}

/// Generator of safe, date-partitioned storage keys.
pub struct PathGenerator;

impl PathGenerator {
    /// Strips a client-supplied filename down to its harmless characters
    /// (alphanumerics, dot, dash, underscore, space), capped at 255.
    pub fn sanitize_filename(filename: &str) -> (r: String)
        ensures
            r@ == spec_sanitize(filename@),
    {
        let cs = chars_vec(filename);
        let n = cs.len();
        let mut out: Vec<char> = Vec::new();
        let mut i: usize = 0;
        proof {
            reveal(Seq::filter);
            assert(filename@.take(0) =~= Seq::<char>::empty());
        }
        while i < n && out.len() < 255
            invariant
                cs@ == filename@,
                n == cs@.len(),
                i <= n,
                out@ == filename@.take(i as int).filter(|c: char| spec_keep_char(c)),
                out@.len() <= 255,
            decreases n - i,
        {
            proof {
                reveal(Seq::filter);
                assert(filename@.take(i + 1 as int).drop_last() =~= filename@.take(i as int));
            }
            let c = cs[i];
            if is_alphanumeric_char(c) || c == '.' || c == '-' || c == '_' || c == ' ' {
                out.push(c);
            }
            i = i + 1;
        }
        proof {
            let pred = |c: char| spec_keep_char(c);
            let f = filename@.filter(pred);
            lemma_filter_prefix(filename@, pred, i as int);
            if i == n {
                assert(filename@.take(i as int) =~= filename@);
                assert(out@ == spec_sanitize(filename@));
            } else {
                assert(out@.len() == 255);
                assert(f.len() >= 255);
                assert(out@ =~= f.take(255));
            }
        }
        string_from_chars(&out)
    }

    /// Accepts a storage key exactly when it holds no parent-directory
    /// step, is relative, and names no drive.
    pub fn validate_storage_key(key: &str) -> (r: Result<(), FileError>)
        ensures
            match r {
                Ok(_) => !spec_storage_key_rejected(key@),
                Err(e) => e == FileError::PathTraversal && spec_storage_key_rejected(key@),
            },
    {
        let cs = chars_vec(key);
        let mut dotdot: Vec<char> = Vec::new();
        dotdot.push('.');
        dotdot.push('.');
        proof {
            assert(dotdot@ =~= seq!['.', '.']);
        }
        if contains_chars(&cs, &dotdot) {
            return Err(FileError::PathTraversal);
        }
        if cs.len() > 0 && (cs[0] == '/' || cs[0] == '\\') {
            return Err(FileError::PathTraversal);
        }
        if cs.len() >= 2 && cs[1] == ':' {
            return Err(FileError::PathTraversal);
        }
        Ok(())
    }

    /// Whether a path is free of every forbidden pattern: parent steps,
    /// doubled separators, null bytes, shell metacharacters, absolute
    /// prefixes and drive names.
    pub fn is_safe_path(path: &str) -> (r: bool)
        ensures
            r == spec_is_safe_path(path@),
    {
        let cs = chars_vec(path);
        let mut pat: Vec<char> = Vec::new();
        pat.push('.');
        pat.push('.');
        proof {
            assert(pat@ =~= seq!['.', '.']);
        }
        if contains_chars(&cs, &pat) {
            return false;
        }
        let mut pat2: Vec<char> = Vec::new();
        pat2.push('/');
        pat2.push('/');
        proof {
            assert(pat2@ =~= seq!['/', '/']);
        }
        if contains_chars(&cs, &pat2) {
            return false;
        }
        let mut pat3: Vec<char> = Vec::new();
        pat3.push('\\');
        pat3.push('\\');
        proof {
            assert(pat3@ =~= seq!['\\', '\\']);
        }
        if contains_chars(&cs, &pat3) {
            return false;
        }
        let mut pat4: Vec<char> = Vec::new();
        pat4.push('\u{0}');
        proof {
            assert(pat4@ =~= seq!['\u{0}']);
        }
        if contains_chars(&cs, &pat4) {
            return false;
        }
        let mut pat5: Vec<char> = Vec::new();
        pat5.push('|');
        proof {
            assert(pat5@ =~= seq!['|']);
        }
        if contains_chars(&cs, &pat5) {
            return false;
        }
        let mut pat6: Vec<char> = Vec::new();
        pat6.push('&');
        proof {
            assert(pat6@ =~= seq!['&']);
        }
        if contains_chars(&cs, &pat6) {
            return false;
        }
        let mut pat7: Vec<char> = Vec::new();
        pat7.push(';');
        proof {
            assert(pat7@ =~= seq![';']);
        }
        if contains_chars(&cs, &pat7) {
            return false;
        }
        if cs.len() > 0 && (cs[0] == '/' || cs[0] == '\\') {
            return false;
        }
        if cs.len() >= 2 && cs[1] == ':' {
            return false;
        }
        true
    }

    /// Builds a fresh date-partitioned storage key, "YYYY/MM/DD/" followed
    /// by a fresh identifier and the validated, lower-cased extension of
    /// the original filename. The result is always a safe path that ends
    /// in "." plus that extension; filenames without an accepted image
    /// extension are rejected with the extension check's error.
    pub fn generate_storage_key(original_filename: &str) -> (r: Result<String, FileError>)
        ensures
            match r {
                Ok(key) => spec_extension_accepted(original_filename@) matches Some(e)
                    && key@.len() > e.len() + 1 && key@.subrange(
                    key@.len() - e.len(),
                    key@.len() as int,
                ) == e && key@[key@.len() - e.len() - 1] == '.' && spec_key_layout(key@, e)
                    && spec_is_safe_path(key@) && !spec_storage_key_rejected(key@),
                Err(err) => match err {
                    FileError::InvalidFileName(_) => FileValidator::spec_extension(
                        original_filename@,
                    ) is None,
                    FileError::UnsupportedFileType(_) => FileValidator::spec_extension(
                        original_filename@,
                    ) is Some && spec_extension_accepted(original_filename@) is None,
                    _ => false,
                },
            },
    {
        let ext = match FileValidator::validate_extension(original_filename) {
            Ok(e) => e,
            Err(err) => {
                return Err(err);
            },
        };
        let uuid = new_uuid_string();
        let (y, m, d) = today_utc();
        let yv: u64 = if y < 0 {
            0
        } else if y > 9999 {
            9999
        } else {
            y as u64
        };
        let ys = u64_to_dec_padded(yv, 4);
        let ms = u64_to_dec_padded(m as u64, 2);
        let ds = u64_to_dec_padded(d as u64, 2);
        let key = ys.concat("/").concat(ms.as_str()).concat("/").concat(ds.as_str()).concat(
            "/",
        ).concat(uuid.as_str()).concat(".").concat(ext.as_str());
        proof {
            reveal_strlit("/");
            reveal_strlit(".");
            assert("/"@ =~= seq!['/']);
            assert("."@ =~= seq!['.']);
            lemma_storage_key_shape(yv as nat, m as nat, d as nat, uuid@, ext@, key@);
        }
        Ok(key)
    }
}

/// A character a generated storage key may hold: a digit, a lower-case
/// letter, a dash, a separator or a dot.
spec fn key_char(c: char) -> bool {
    ('0' <= c <= '9') || ('a' <= c <= 'z') || c == '-' || c == '/' || c == '.'
}

/// A generated key — date fields, separators, a fresh identifier and an
/// accepted extension — is a safe path ending in its extension.
proof fn lemma_storage_key_shape(yv: nat, m: nat, d: nat, uuid: Seq<char>, ext: Seq<char>, key: Seq<char>)
    requires
        key == dec_padded(yv, 4) + "/"@ + dec_padded(m, 2) + "/"@ + dec_padded(d, 2) + "/"@ + uuid
            + "."@ + ext,
        "/"@ == seq!['/'],
        "."@ == seq!['.'],
        uuid.len() == 36,
        forall|i: int| 0 <= i < uuid.len() ==> is_uuid_char(#[trigger] uuid[i]),
        ext == "jpg"@ || ext == "jpeg"@ || ext == "png"@ || ext == "gif"@ || ext == "svg"@,
        yv < 10000,
        m < 100,
        d < 100,
    ensures
        key.len() > ext.len() + 1,
        key.subrange(key.len() - ext.len(), key.len() as int) == ext,
        key[key.len() - ext.len() - 1] == '.',
        spec_is_safe_path(key),
        !spec_storage_key_rejected(key),
        spec_key_layout(key, ext),
{
    lemma_dec_rep_len_bounds(yv);
    lemma_dec_rep_len_bounds(m);
    lemma_dec_rep_len_bounds(d);
    reveal_strlit("jpg");
    reveal_strlit("jpeg");
    reveal_strlit("png");
    reveal_strlit("gif");
    reveal_strlit("svg");
    lemma_dec_padded_digits(yv, 4);
    lemma_dec_padded_digits(m, 2);
    lemma_dec_padded_digits(d, 2);
    let ys = dec_padded(yv, 4);
    let ms = dec_padded(m, 2);
    let ds = dec_padded(d, 2);
    let p1 = ys.len() as int;
    let p2 = p1 + 1 + ms.len();
    let p3 = p2 + 1 + ds.len();
    let dp = p3 + 1 + 36;
    assert(key.len() == dp + 1 + ext.len());
    assert(forall|i: int| 0 <= i < ext.len() ==> 'a' <= #[trigger] ext[i] <= 'z' && ext[i] != '.');
    // where each region sits in the key
    assert(p1 == 4 && p2 == 7 && p3 == 10 && dp == 47);
    assert forall|i: int| 0 <= i < key.len() implies key_char(#[trigger] key[i]) && (key[i] == '.'
        ==> i == dp) && (key[i] == '/' ==> i == p1 || i == p2 || i == p3) && ((i < p1 || p1 < i
        < p2 || p2 < i < p3) ==> '0' <= key[i] <= '9') && (p3 < i < dp ==> is_uuid_char(key[i]))
        && ((i == p1 || i == p2 || i == p3) ==> key[i] == '/') && (i == dp ==> key[i] == '.') by {
        if i < p1 {
            assert(key[i] == ys[i]);
        } else if i == p1 {
            assert(key[i] == '/');
        } else if i < p2 {
            assert(key[i] == ms[i - (p1 + 1)]);
        } else if i == p2 {
            assert(key[i] == '/');
        } else if i < p3 {
            assert(key[i] == ds[i - (p2 + 1)]);
        } else if i == p3 {
            assert(key[i] == '/');
        } else if i < dp {
            assert(key[i] == uuid[i - (p3 + 1)]);
            assert(is_uuid_char(key[i]));
        } else if i == dp {
            assert(key[i] == '.');
        } else {
            assert(key[i] == ext[i - (dp + 1)]);
        }
    }
    assert(key.subrange(key.len() - ext.len(), key.len() as int) =~= ext);
    assert(key[dp] == '.');
    // no forbidden single characters
    lemma_contains_single(key, '\u{0}');
    lemma_contains_single(key, '|');
    lemma_contains_single(key, '&');
    lemma_contains_single(key, ';');
    // no forbidden pairs
    lemma_contains_pair(key, '.', '.');
    assert(!contains_seq(key, seq!['.', '.'])) by {
        if exists|i: int| 0 <= i < key.len() - 1 && #[trigger] key[i] == '.' && key[i + 1] == '.' {
            let i = choose|i: int|
                0 <= i < key.len() - 1 && #[trigger] key[i] == '.' && key[i + 1] == '.';
            assert(i == dp && i + 1 == dp);
        }
    }
    lemma_contains_pair(key, '/', '/');
    assert(!contains_seq(key, seq!['/', '/'])) by {
        if exists|i: int| 0 <= i < key.len() - 1 && #[trigger] key[i] == '/' && key[i + 1] == '/' {
            let i = choose|i: int|
                0 <= i < key.len() - 1 && #[trigger] key[i] == '/' && key[i + 1] == '/';
            if i == p1 {
                assert(key[i + 1] == ms[0]);
                assert('0' <= key[i + 1] <= '9');
            } else if i == p2 {
                assert(key[i + 1] == ds[0]);
                assert('0' <= key[i + 1] <= '9');
            } else {
                assert(key[i + 1] == uuid[0]);
                assert(is_uuid_char(key[i + 1]));
            }
        }
    }
    lemma_contains_pair(key, '\\', '\\');
    assert(key[0] == ys[0]);
    assert(key[1] == ys[1]);
    assert(key.subrange(48, key.len() as int) =~= ext);
}

/// Bytes per kibibyte, mebibyte and gibibyte.
pub const KB: i64 = 1024;

pub const MB: i64 = 1048576;

pub const GB: i64 = 1073741824;

/// Whole part of a size in the given unit, after rounding the fraction
/// half-up to two decimals (a fraction of 100 carries into the whole).
pub open spec fn spec_size_whole(bytes: int, unit: int) -> int {
    let f = (200 * (bytes % unit) + unit) / (2 * unit);
    if f == 100 {
        bytes / unit + 1
    } else {
        bytes / unit
    }
}

/// Two-decimal fraction of a size in the given unit, rounded half-up.
pub open spec fn spec_size_frac(bytes: int, unit: int) -> int {
    let f = (200 * (bytes % unit) + unit) / (2 * unit);
    if f == 100 {
        0
    } else {
        f
    }
}

/// "W.FF" of a size in the given unit, two decimals, rounded half-up.
pub open spec fn spec_scaled_rep(bytes: int, unit: int) -> Seq<char> {
    dec_rep(spec_size_whole(bytes, unit) as nat) + "."@ + dec_padded(
        spec_size_frac(bytes, unit) as nat,
        2,
    )
}

/// The human-readable rendering of a byte count: "W.FF GB", "W.FF MB" or
/// "W.FF KB" for sizes of at least one unit (two decimals, rounded
/// half-up), plain "N bytes" below one kibibyte.
pub open spec fn spec_format_size(bytes: int) -> Seq<char> {
    if bytes >= GB {
        spec_scaled_rep(bytes, GB as int) + " GB"@
    } else if bytes >= MB {
        spec_scaled_rep(bytes, MB as int) + " MB"@
    } else if bytes >= KB {
        spec_scaled_rep(bytes, KB as int) + " KB"@
    } else {
        dec_rep(bytes as nat) + " bytes"@
    }
}

/// Renders one scaled size, "W.FF" followed by the unit suffix.
fn scaled_rep(bytes: i64, unit: i64, suffix: &str) -> (r: String)
    requires
        1024 <= unit <= bytes,
    ensures
        r@ == spec_scaled_rep(bytes as int, unit as int) + suffix@,
{
    let whole0: i64 = bytes / unit;
    let rem: i64 = bytes % unit;
    let frac: i64 = ((200 * (rem as i128) + (unit as i128)) / (2 * (unit as i128))) as i64;
    proof {
        assert(0 <= rem < unit);
        assert(0 <= (200 * (rem as int) + unit) / (2 * unit) <= 100) by (nonlinear_arith)
            requires
                0 <= rem < unit,
                1024 <= unit,
        {
        }
        assert(0 <= whole0 as int <= bytes as int / 1024) by (nonlinear_arith)
            requires
                1024 <= unit <= bytes,
                whole0 == bytes as int / unit as int,
        {
        }
    }
    let (whole, fr): (i64, i64) = if frac == 100 {
        (whole0 + 1, 0)
    } else {
        (whole0, frac)
    };
    let ws = u64_to_dec(whole as u64);
    let fs = u64_to_dec_padded(fr as u64, 2);
    ws.concat(".").concat(fs.as_str()).concat(suffix)
}

/// Formats a byte count for humans: "W.FF GB/MB/KB" with two decimals
/// rounded half-up, or "N bytes" below one kibibyte.
pub fn format_size(bytes: i64) -> (r: String)
    requires
        0 <= bytes,
    ensures
        r@ == spec_format_size(bytes as int),
{
    if bytes >= GB {
        scaled_rep(bytes, GB, " GB")
    } else if bytes >= MB {
        scaled_rep(bytes, MB, " MB")
    } else if bytes >= KB {
        scaled_rep(bytes, KB, " KB")
    } else {
        u64_to_dec(bytes as u64).concat(" bytes")
    }
}

} // verus!

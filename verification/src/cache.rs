//! The content-addressed image cache's verified core: the cache file name
//! derived from a remote URL (SHA-1 digest of the whole URL, extension
//! from the query-stripped path), the TTL freshness test, the file-URL
//! rendering of a cache path, and the cache-enabling flag parser.  The
//! file system and HTTP side of the cache lives outside the library.

use vstd::prelude::*;

use sha1::Digest;

use crate::LauncherError;
use crate::text::lower_of;
use crate::text::lowercase;
use crate::text::str_eq;
use crate::text::trim_str;
use crate::text::trimmed_of;

verus! {

/// The SHA-1 digest of a string's UTF-8 bytes.  The result depends on the
/// characters alone.
pub uninterp spec fn sha1_of(s: Seq<char>) -> Seq<u8>;

/// Relies on sha1's `Sha1` through the `Digest` trait: the 20-byte SHA-1
/// digest of the string's UTF-8 bytes, a function of the input alone.
#[verifier::external_body]
fn sha1_digest(s: &str) -> (r: Vec<u8>)
    ensures
        r@ == sha1_of(s@),
        r@.len() == 20,
{
    let mut hasher = sha1::Sha1::new();
    hasher.update(s.as_bytes());
    hasher.finalize().to_vec()
}

/// The lower-case hex digit of a nibble value.
pub open spec fn hex_digit(n: int) -> char {
    if n == 0 {
        '0'
    } else if n == 1 {
        '1'
    } else if n == 2 {
        '2'
    } else if n == 3 {
        '3'
    } else if n == 4 {
        '4'
    } else if n == 5 {
        '5'
    } else if n == 6 {
        '6'
    } else if n == 7 {
        '7'
    } else if n == 8 {
        '8'
    } else if n == 9 {
        '9'
    } else if n == 10 {
        'a'
    } else if n == 11 {
        'b'
    } else if n == 12 {
        'c'
    } else if n == 13 {
        'd'
    } else if n == 14 {
        'e'
    } else {
        'f'
    }
}

/// The lower-case hex rendering of a byte sequence: two digits per byte,
/// high nibble first.
pub open spec fn hex_of(bytes: Seq<u8>) -> Seq<char> {
    Seq::new(
        bytes.len() * 2,
        |i: int|
            if i % 2 == 0 {
                hex_digit(bytes[i / 2] as int / 16)
            } else {
                hex_digit(bytes[i / 2] as int % 16)
            },
    )
}

/// Relies on hex::encode: two lower-case hex digits per byte, high nibble
/// first.
#[verifier::external_body]
fn hex_encode(bytes: &Vec<u8>) -> (r: String)
    ensures
        r@ == hex_of(bytes@),
{
    hex::encode(bytes.as_slice())
}

/// The index of the first occurrence of `c` in `s`, or `s.len()` when `c`
/// does not occur.
pub open spec fn first_index(s: Seq<char>, c: char) -> int
    decreases s.len(),
{
    if s.len() == 0 {
        0
    } else if s[0] == c {
        0
    } else {
        1 + first_index(s.drop_first(), c)
    }
}

/// The index of the last occurrence of `c` in `s`, or `-1` when `c` does
/// not occur.
pub open spec fn last_index(s: Seq<char>, c: char) -> int
    decreases s.len(),
{
    if s.len() == 0 {
        -1
    } else if s[s.len() - 1] == c {
        s.len() - 1
    } else {
        last_index(s.drop_last(), c)
    }
}

proof fn lemma_first_index_props(s: Seq<char>, c: char)
    ensures
        0 <= first_index(s, c) <= s.len(),
        first_index(s, c) < s.len() ==> s[first_index(s, c)] == c,
        forall|j: int| 0 <= j < first_index(s, c) ==> s[j] != c,
    decreases s.len(),
{
    if s.len() > 0 && s[0] != c {
        lemma_first_index_props(s.drop_first(), c);
        assert forall|j: int| 0 <= j < first_index(s, c) implies s[j] != c by {
            if j > 0 {
                assert(s.drop_first()[j - 1] == s[j]);
            }
        }
    }
}

proof fn lemma_last_index_props(s: Seq<char>, c: char)
    ensures
        -1 <= last_index(s, c) < s.len(),
        last_index(s, c) >= 0 ==> s[last_index(s, c)] == c,
        forall|j: int| last_index(s, c) < j < s.len() ==> s[j] != c,
    decreases s.len(),
{
    if s.len() > 0 && s[s.len() - 1] != c {
        lemma_last_index_props(s.drop_last(), c);
        assert forall|j: int| last_index(s, c) < j < s.len() implies s[j] != c by {
            if j < s.len() - 1 {
                assert(s.drop_last()[j] == s[j]);
            }
        }
    }
}

/// The path portion of a URL string: everything before the first `?`.
pub open spec fn url_path_of(url: Seq<char>) -> Seq<char> {
    url.take(first_index(url, '?'))
}

/// The final path segment of a URL string: the path portion after its
/// last `/`.
pub open spec fn file_segment_of(url: Seq<char>) -> Seq<char> {
    let p = url_path_of(url);
    p.subrange(last_index(p, '/') + 1, p.len() as int)
}

/// The cache file extension of a URL: the final path segment after its
/// last `.`, provided that dot is neither absent nor leading; the generic
/// extension otherwise.
pub open spec fn ext_of(url: Seq<char>) -> Seq<char> {
    let seg = file_segment_of(url);
    let d = last_index(seg, '.');
    if d > 0 {
        seg.subrange(d + 1, seg.len() as int)
    } else {
        "img"@
    }
}

/// The cache file name of a URL: the hex SHA-1 digest of the whole URL
/// string, a dot, and the extension of the query-stripped path.
pub open spec fn cache_name_of(url: Seq<char>) -> Seq<char> {
    hex_of(sha1_of(url)) + "."@ + ext_of(url)
}

/// Derives the cache file's base name for a remote image URL.
pub fn cache_file_name(url: &str) -> (r: String)
    ensures
        r@ == cache_name_of(url@),
{
    let digest = sha1_digest(url);
    let hex_name = hex_encode(&digest);

    let len = url.unicode_len();
    let mut q: usize = 0;
    while q < len && url.get_char(q) != '?'
        invariant
            len == url@.len(),
            q <= len,
            forall|j: int| 0 <= j < q ==> url@[j] != '?',
        decreases len - q,
    {
        q = q + 1;
    }
    proof {
        lemma_first_index_props(url@, '?');
        let fi = first_index(url@, '?');
        if fi < q {
            assert(url@[fi] == '?');
        }
        assert(q == fi);
    }
    let path = url.substring_char(0, q);

    let mut sl: usize = q;
    while sl > 0 && path.get_char(sl - 1) != '/'
        invariant
            path@ == url@.take(q as int),
            path@.len() == q,
            sl <= q,
            forall|j: int| sl <= j < q ==> path@[j] != '/',
        decreases sl,
    {
        sl = sl - 1;
    }
    proof {
        lemma_last_index_props(path@, '/');
        let li = last_index(path@, '/');
        if sl > 0 {
            assert(path@[sl - 1] == '/');
            assert(li >= sl - 1);
        }
        assert(li == sl - 1);
    }
    let seg = path.substring_char(sl, q);
    let seg_len = q - sl;

    let mut dt: usize = seg_len;
    while dt > 0 && seg.get_char(dt - 1) != '.'
        invariant
            seg@ == file_segment_of(url@),
            seg@.len() == seg_len,
            dt <= seg_len,
            forall|j: int| dt <= j < seg_len ==> seg@[j] != '.',
        decreases dt,
    {
        dt = dt - 1;
    }
    proof {
        lemma_last_index_props(seg@, '.');
        let di = last_index(seg@, '.');
        if dt > 0 {
            assert(seg@[dt - 1] == '.');
            assert(di >= dt - 1);
        }
        assert(di == dt - 1);
    }

    let with_dot = hex_name.concat(".");
    if dt > 1 {
        let ext = seg.substring_char(dt, seg_len);
        with_dot.concat(ext)
    } else {
        with_dot.concat("img")
    }
}

/// Law: the extension part of a cache file name reads only the URL's path
/// portion.  Appending a query string to a query-free URL leaves the
/// derived extension unchanged, while the digest still covers the whole
/// string.
pub proof fn lemma_extension_ignores_query(path: Seq<char>, query: Seq<char>)
    requires
        !path.contains('?'),
    ensures
        ext_of(path + seq!['?'] + query) == ext_of(path),
{
    let combined = path + seq!['?'] + query;
    lemma_first_index_props(combined, '?');
    let fi = first_index(combined, '?');
    assert(combined[path.len() as int] == '?');
    assert(fi <= path.len());
    if fi < path.len() {
        assert(combined[fi] == path[fi]);
        assert(path[fi] == '?');
        assert(false);
    }
    assert(combined.take(fi) =~= path);
    lemma_first_index_props(path, '?');
    let pf = first_index(path, '?');
    if pf < path.len() {
        assert(path[pf] == '?');
        assert(false);
    }
    assert(path.take(pf) =~= path);
    assert(url_path_of(combined) == url_path_of(path));
}

/// Whether a cached file's age exceeds the time-to-live.  A file exactly
/// at the TTL boundary is not yet expired; only a strictly greater age is.
pub fn is_expired(age_secs: u64, ttl_secs: u64) -> (r: bool)
    ensures
        r == (age_secs > ttl_secs),
{
    age_secs > ttl_secs
}

/// Relies on url::Url::from_file_path and Url's serialization: a file URL
/// is rendered as the "file://" prefix followed by host and path, and the
/// conversion fails for a non-absolute path.
#[verifier::external_body]
fn url_from_file_path(path: &str) -> (r: Option<String>)
    ensures
        (r matches Some(u) ==> u@.len() >= 7 && u@.subrange(0, 7) == "file://"@),
{
    match url::Url::from_file_path(std::path::Path::new(path)) {
        Ok(u) => Some(u.to_string()),
        Err(()) => None,
    }
}

/// Renders a local cache path as a file URL for display, or reports the
/// conversion failure as the cache error.
pub fn file_url(path: &str) -> (r: Result<String, LauncherError>)
    ensures
        (r matches Ok(u) ==> u@.len() >= 7 && u@.subrange(0, 7) == "file://"@),
        (r matches Err(e) ==> e == LauncherError::FileUrlConversion),
{
    match url_from_file_path(path) {
        Some(u) => Ok(u),
        None => Err(LauncherError::FileUrlConversion),
    }
}

/// Whether an image-cache flag value enables caching: its trimmed,
/// lower-cased form is one of the accepted markers.
pub open spec fn cache_flag_spec(value: Seq<char>) -> bool {
    let t = lower_of(trimmed_of(value));
    t == "1"@ || t == "true"@ || t == "yes"@ || t == "on"@
}

/// Parses the image-cache flag value.  Reading the flag from the
/// environment is the caller's part; an unset flag means caching stays
/// off.
pub fn cache_flag_enabled(value: &str) -> (r: bool)
    ensures
        r == cache_flag_spec(value@),
{
    let trimmed = trim_str(value);
    let lowered = lowercase(trimmed.as_str());
    str_eq(lowered.as_str(), "1") || str_eq(lowered.as_str(), "true") || str_eq(
        lowered.as_str(),
        "yes",
    ) || str_eq(lowered.as_str(), "on")
}

} // verus!

//! Character-level text helpers: equality, ASCII case folding, truncation,
//! whitespace trimming and quote stripping, all verified against views of
//! the strings as sequences of Unicode scalar values.

use vstd::prelude::*;

verus! {

/// Character-by-character equality of two string slices.
pub fn str_eq(a: &str, b: &str) -> (r: bool)
    ensures
        r == (a@ == b@),
{
    let an = a.unicode_len();
    let bn = b.unicode_len();
    if an != bn {
        return false;
    }
    let mut i: usize = 0;
    while i < an
        invariant
            an == a@.len(),
            an == b@.len(),
            i <= an,
            forall|j: int| 0 <= j < i ==> a@[j] == b@[j],
        decreases an - i,
    {
        if a.get_char(i) != b.get_char(i) {
            return false;
        }
        i = i + 1;
    }
    proof {
        assert(a@ =~= b@);
    }
    true
}

/// The code of `c` with ASCII upper-case letters folded to lower case;
/// every other character keeps its own code.
pub open spec fn lower_code(c: char) -> int {
    if 65 <= c as u32 <= 90 {
        c as u32 + 32
    } else {
        c as u32 as int
    }
}

/// Two character sequences are equal up to ASCII case.
pub open spec fn eq_ignore_ascii(a: Seq<char>, b: Seq<char>) -> bool {
    &&& a.len() == b.len()
    &&& forall|i: int| 0 <= i < a.len() ==> lower_code(a[i]) == lower_code(b[i])
}

/// Equality of two string slices up to ASCII case, as `str::eq_ignore_ascii_case`
/// defines it: positionwise, folding only the letters `A` through `Z`.
pub fn eq_ignore_ascii_case(a: &str, b: &str) -> (r: bool)
    ensures
        r == eq_ignore_ascii(a@, b@),
{
    let an = a.unicode_len();
    let bn = b.unicode_len();
    if an != bn {
        return false;
    }
    let mut i: usize = 0;
    while i < an
        invariant
            an == a@.len(),
            an == b@.len(),
            i <= an,
            forall|j: int| 0 <= j < i ==> lower_code(a@[j]) == lower_code(b@[j]),
        decreases an - i,
    {
        let ca = a.get_char(i) as u32;
        let cb = b.get_char(i) as u32;
        let fa = if 65 <= ca && ca <= 90 {
            ca + 32
        } else {
            ca
        };
        let fb = if 65 <= cb && cb <= 90 {
            cb + 32
        } else {
            cb
        };
        if fa != fb {
            return false;
        }
        i = i + 1;
    }
    true
}

/// The first `max` scalar values of `s`, or all of `s` when it is shorter.
pub open spec fn truncated(s: Seq<char>, max: nat) -> Seq<char> {
    if s.len() <= max {
        s
    } else {
        s.take(max as int)
    }
}

/// Hard character-count truncation: at most `max` Unicode scalar values,
/// always a prefix of the input under scalar-value comparison.
pub fn truncate_chars(value: &str, max: usize) -> (r: String)
    ensures
        r@ == truncated(value@, max as nat),
        r@.len() <= max,
        r@ == value@.take(r@.len() as int),
{
    let len = value.unicode_len();
    let end = if max < len {
        max
    } else {
        len
    };
    let sub = value.substring_char(0, end);
    let r = String::from_str(sub);
    proof {
        assert(r@ =~= truncated(value@, max as nat));
        assert(r@ =~= value@.take(r@.len() as int));
    }
    r
}

/// `s` without one pair of matching outer quotes, if it carries one.
pub open spec fn unquoted(s: Seq<char>) -> Seq<char> {
    if s.len() >= 2 && ((s[0] == '"' && s[s.len() - 1] == '"') || (s[0] == '\'' && s[s.len() - 1]
        == '\'')) {
        s.subrange(1, s.len() - 1)
    } else {
        s
    }
}

/// Strips one pair of matching outer double or single quotes, if present;
/// any other value comes back unchanged.
pub fn unwrap_outer_quotes(value: &str) -> (r: String)
    ensures
        r@ == unquoted(value@),
{
    let len = value.unicode_len();
    if len < 2 {
        return String::from_str(value);
    }
    let first = value.get_char(0);
    let last = value.get_char(len - 1);
    if (first == '"' && last == '"') || (first == '\'' && last == '\'') {
        String::from_str(value.substring_char(1, len - 1))
    } else {
        String::from_str(value)
    }
}

/// Whether a character has the Unicode `White_Space` property.  The result
/// depends on the character alone.
pub uninterp spec fn unicode_ws(c: char) -> bool;

/// Relies on char::is_whitespace: tests the Unicode `White_Space` property
/// of the character.
pub assume_specification[ char::is_whitespace ](c: char) -> (r: bool)
    ensures
        r == unicode_ws(c),
;

/// `s` without its leading whitespace.
pub open spec fn trim_start_spec(s: Seq<char>) -> Seq<char>
    decreases s.len(),
{
    if s.len() > 0 && unicode_ws(s[0]) {
        trim_start_spec(s.drop_first())
    } else {
        s
    }
}

/// `s` without its trailing whitespace.
pub open spec fn trim_end_spec(s: Seq<char>) -> Seq<char>
    decreases s.len(),
{
    if s.len() > 0 && unicode_ws(s[s.len() - 1]) {
        trim_end_spec(s.drop_last())
    } else {
        s
    }
}

/// `s` without leading and trailing whitespace, as `str::trim` yields it.
pub open spec fn trimmed_of(s: Seq<char>) -> Seq<char> {
    trim_end_spec(trim_start_spec(s))
}

proof fn lemma_trim_start_range(s: Seq<char>, i: int)
    requires
        0 <= i <= s.len(),
        forall|j: int| 0 <= j < i ==> unicode_ws(s[j]),
        i < s.len() ==> !unicode_ws(s[i]),
    ensures
        trim_start_spec(s) == s.subrange(i, s.len() as int),
    decreases i,
{
    if i == 0 {
        assert(s.subrange(0, s.len() as int) =~= s);
    } else {
        lemma_trim_start_range(s.drop_first(), i - 1);
        assert(s.drop_first().subrange(i - 1, s.drop_first().len() as int) =~= s.subrange(
            i,
            s.len() as int,
        ));
    }
}

proof fn lemma_trim_end_range(s: Seq<char>, k: int)
    requires
        0 <= k <= s.len(),
        forall|j: int| k <= j < s.len() ==> unicode_ws(s[j]),
        k > 0 ==> !unicode_ws(s[k - 1]),
    ensures
        trim_end_spec(s) == s.subrange(0, k),
    decreases s.len() - k,
{
    if k == s.len() {
        if k == 0 {
            assert(s.subrange(0, 0) =~= s);
        } else if !unicode_ws(s[s.len() - 1]) {
            assert(s.subrange(0, k) =~= s);
        } else {
            assert(false);
        }
    } else {
        lemma_trim_end_range(s.drop_last(), k);
        assert(s.drop_last().subrange(0, k) =~= s.subrange(0, k));
    }
}

/// Leading and trailing whitespace removed, character for character what
/// `trimmed_of` describes.
pub fn trim_str(value: &str) -> (r: String)
    ensures
        r@ == trimmed_of(value@),
{
    let len = value.unicode_len();
    let mut start: usize = 0;
    while start < len && value.get_char(start).is_whitespace()
        invariant
            len == value@.len(),
            start <= len,
            forall|j: int| 0 <= j < start ==> unicode_ws(value@[j]),
        decreases len - start,
    {
        start = start + 1;
    }
    let mut end: usize = len;
    while end > start && value.get_char(end - 1).is_whitespace()
        invariant
            len == value@.len(),
            start <= end <= len,
            forall|j: int| 0 <= j < start ==> unicode_ws(value@[j]),
            forall|j: int| end <= j < len ==> unicode_ws(value@[j]),
        decreases end,
    {
        end = end - 1;
    }
    proof {
        lemma_trim_start_range(value@, start as int);
        let t = value@.subrange(start as int, len as int);
        lemma_trim_end_range(t, end - start);
        assert(t.subrange(0, end - start) =~= value@.subrange(start as int, end as int));
    }
    String::from_str(value.substring_char(start, end))
}

/// The Unicode lower-case form of a character sequence.  The result depends
/// on the characters alone.
pub uninterp spec fn lower_of(s: Seq<char>) -> Seq<char>;

/// Relies on str::to_lowercase: maps the string to its Unicode lower-case
/// form; the result depends on the characters alone, and an empty string
/// stays empty.
#[verifier::external_body]
pub(crate) fn lowercase(s: &str) -> (r: String)
    ensures
        r@ == lower_of(s@),
        s@.len() == 0 ==> r@.len() == 0,
{
    s.to_lowercase()
}

} // verus!

//! Character-level text utilities: whitespace trimming, preview truncation,
//! substring search, integer parsing and path extensions. These back the
//! record previews, the history search, the settings parser and the probe's
//! image-file filter.

use vstd::prelude::*;
use vstd::string::*;

verus! {

/// Whether a character counts as whitespace, exactly as `char::is_whitespace`
/// decides it (the Unicode `White_Space` property).
pub uninterp spec fn is_space(c: char) -> bool;

/// Relies on `char::is_whitespace`: the Unicode `White_Space` property of the
/// character, a function of the character alone.
#[verifier::external_body]
pub fn char_is_space(c: char) -> (r: bool)
    ensures
        r == is_space(c),
{
    c.is_whitespace()
}

/// Index of the first non-whitespace character, or the length if all of the
/// string is whitespace.
pub open spec fn first_non_space(s: Seq<char>) -> int
    decreases s.len(),
{
    if s.len() == 0 {
        0
    } else if is_space(s[0]) {
        1 + first_non_space(s.drop_first())
    } else {
        0
    }
}

/// One past the index of the last non-whitespace character, or zero if all of
/// the string is whitespace.
pub open spec fn last_non_space_end(s: Seq<char>) -> int
    decreases s.len(),
{
    if s.len() == 0 {
        0
    } else if is_space(s.last()) {
        last_non_space_end(s.drop_last())
    } else {
        s.len() as int
    }
}

/// The string with leading and trailing whitespace removed, as `str::trim`
/// leaves it.
pub open spec fn spec_trim(s: Seq<char>) -> Seq<char> {
    if first_non_space(s) <= last_non_space_end(s) {
        s.subrange(first_non_space(s), last_non_space_end(s))
    } else {
        Seq::empty()
    }
}

proof fn lemma_first_non_space(s: Seq<char>)
    ensures
        0 <= first_non_space(s) <= s.len(),
        forall|k: int| 0 <= k < first_non_space(s) ==> is_space(s[k]),
        first_non_space(s) < s.len() ==> !is_space(s[first_non_space(s)]),
    decreases s.len(),
{
    if s.len() == 0 {
    } else if is_space(s[0]) {
        lemma_first_non_space(s.drop_first());
        assert forall|k: int| 0 <= k < first_non_space(s) implies is_space(s[k]) by {
            if k > 0 {
                assert(s.drop_first()[k - 1] == s[k]);
            }
        }
        if first_non_space(s) < s.len() {
            assert(s.drop_first()[first_non_space(s) - 1] == s[first_non_space(s)]);
        }
    }
}

proof fn lemma_last_non_space_end(s: Seq<char>)
    ensures
        0 <= last_non_space_end(s) <= s.len(),
        forall|k: int| last_non_space_end(s) <= k < s.len() ==> is_space(s[k]),
        last_non_space_end(s) > 0 ==> !is_space(s[last_non_space_end(s) - 1]),
    decreases s.len(),
{
    if s.len() == 0 {
    } else if is_space(s.last()) {
        lemma_last_non_space_end(s.drop_last());
        assert forall|k: int| last_non_space_end(s) <= k < s.len() implies is_space(s[k]) by {
            if k < s.len() - 1 {
                assert(s.drop_last()[k] == s[k]);
            }
        }
        if last_non_space_end(s) > 0 {
            assert(s.drop_last()[last_non_space_end(s) - 1] == s[last_non_space_end(s) - 1]);
        }
    }
}

/// Remove leading and trailing whitespace.
pub fn trim_str(s: &str) -> (r: String)
    ensures
        r@ == spec_trim(s@),
{
    proof {
        lemma_first_non_space(s@);
        lemma_last_non_space_end(s@);
    }
    let len = s.unicode_len();
    let mut a: usize = 0;
    while a < len && char_is_space(s.get_char(a))
        invariant
            0 <= a <= len,
            len == s@.len(),
            forall|k: int| 0 <= k < a ==> is_space(s@[k]),
        decreases len - a,
    {
        a = a + 1;
    }
    // a is now the first non-whitespace index, or len
    proof {
        if a < first_non_space(s@) {
            assert(!is_space(s@[a as int]));
        }
        if first_non_space(s@) < a {
            assert(is_space(s@[first_non_space(s@)]));
        }
        assert(a == first_non_space(s@));
    }
    if a == len {
        proof {
            if last_non_space_end(s@) > 0 {
                assert(is_space(s@[last_non_space_end(s@) - 1]));
            }
            assert(spec_trim(s@) =~= Seq::<char>::empty());
        }
        return String::new();
    }
    let mut b: usize = len;
    while b > 0 && char_is_space(s.get_char(b - 1))
        invariant
            0 <= b <= len,
            len == s@.len(),
            forall|k: int| b <= k < len ==> is_space(s@[k]),
        decreases b,
    {
        b = b - 1;
    }
    proof {
        if b < last_non_space_end(s@) {
            assert(is_space(s@[last_non_space_end(s@) - 1]));
        }
        if last_non_space_end(s@) < b {
            assert(!is_space(s@[b - 1]));
        }
        assert(b == last_non_space_end(s@));
        // the character at index a is not whitespace, so b must lie beyond it
        assert(a < b) by {
            if b <= a {
                assert(is_space(s@[a as int]));
            }
        }
    }
    s.substring_char(a, b).to_owned()
}

/// A preview of a text: trimmed, and truncated to at most `max` characters
/// with an ellipsis appended when the text was longer.
pub open spec fn spec_preview(s: Seq<char>, max: int) -> Seq<char> {
    let t = spec_trim(s);
    if t.len() <= max {
        t
    } else {
        t.take(max) + "..."@
    }
}

/// Derive the display preview of a text.
pub fn make_preview(text: &str, max_len: usize) -> (r: String)
    ensures
        r@ == spec_preview(text@, max_len as int),
{
    let trimmed = trim_str(text);
    let count = trimmed.as_str().unicode_len();
    if count <= max_len {
        trimmed
    } else {
        let cut = trimmed.as_str().substring_char(0, max_len).to_owned();
        proof {
            assert(cut@ =~= spec_trim(text@).take(max_len as int));
        }
        cut.concat("...")
    }
}

/// The needle occurs in the haystack starting at index `i`.
pub open spec fn contains_at(hay: Seq<char>, needle: Seq<char>, i: int) -> bool {
    0 <= i && i + needle.len() <= hay.len() && hay.subrange(i, i + needle.len()) == needle
}

/// The needle occurs somewhere in the haystack (case-sensitive).
pub open spec fn seq_contains(hay: Seq<char>, needle: Seq<char>) -> bool {
    exists|i: int| contains_at(hay, needle, i)
}

/// Whether the needle occurs in the haystack at exactly index `i`.
fn match_at(hay: &str, needle: &str, i: usize) -> (r: bool)
    requires
        i + needle@.len() <= hay@.len(),
    ensures
        r == contains_at(hay@, needle@, i as int),
{
    let h = hay.unicode_len();
    let n = needle.unicode_len();
    let mut j: usize = 0;
    while j < n
        invariant
            0 <= j <= n,
            n == needle@.len(),
            h == hay@.len(),
            i + n <= h,
            forall|t: int| 0 <= t < j ==> hay@[i + t] == needle@[t],
        decreases n - j,
    {
        if hay.get_char(i + j) != needle.get_char(j) {
            proof {
                if contains_at(hay@, needle@, i as int) {
                    assert(hay@.subrange(i as int, i + needle@.len())[j as int]
                        == needle@[j as int]);
                }
            }
            return false;
        }
        j = j + 1;
    }
    proof {
        assert(hay@.subrange(i as int, i + needle@.len()) =~= needle@);
    }
    true
}

/// Case-sensitive substring search.
pub fn str_contains(hay: &str, needle: &str) -> (r: bool)
    ensures
        r == seq_contains(hay@, needle@),
{
    let h = hay.unicode_len();
    let n = needle.unicode_len();
    if n > h {
        proof {
            assert forall|i: int| !contains_at(hay@, needle@, i) by {}
        }
        return false;
    }
    if n == 0 {
        proof {
            assert(hay@.subrange(0, 0) =~= needle@);
            assert(contains_at(hay@, needle@, 0));
        }
        return true;
    }
    let last = h - n;
    let mut i: usize = 0;
    while i <= last
        invariant
            0 <= i <= last + 1,
            last == h - n,
            1 <= n <= h,
            h == hay@.len(),
            n == needle@.len(),
            forall|k: int| 0 <= k < i ==> !contains_at(hay@, needle@, k),
        decreases last - i + 1,
    {
        if match_at(hay, needle, i) {
            return true;
        }
        i = i + 1;
    }
    proof {
        assert forall|k: int| !contains_at(hay@, needle@, k) by {}
    }
    false
}

/// A decimal digit.
pub open spec fn is_digit_char(c: char) -> bool {
    '0' <= c && c <= '9'
}

/// The numeric value of a decimal digit.
pub open spec fn digit_val(c: char) -> int {
    c as u32 - '0' as u32
}

/// The value of a sequence of decimal digits, most significant first.
pub open spec fn digits_value(s: Seq<char>) -> int
    decreases s.len(),
{
    if s.len() == 0 {
        0
    } else {
        digits_value(s.drop_last()) * 10 + digit_val(s.last())
    }
}

/// Every character is a decimal digit.
pub open spec fn all_digits(s: Seq<char>) -> bool {
    forall|i: int| 0 <= i < s.len() ==> is_digit_char(s[i])
}

/// What `str::parse::<i32>` accepts and returns: an optional sign, then at
/// least one decimal digit and nothing else, with the value in range.
pub open spec fn spec_parse_i32(s: Seq<char>) -> Option<i32> {
    let neg = s.len() > 0 && s[0] == '-';
    let ds = if s.len() > 0 && (s[0] == '-' || s[0] == '+') {
        s.drop_first()
    } else {
        s
    };
    if ds.len() == 0 || !all_digits(ds) {
        None
    } else {
        let v = if neg {
            -digits_value(ds)
        } else {
            digits_value(ds)
        };
        if i32::MIN <= v <= i32::MAX {
            Some(v as i32)
        } else {
            None
        }
    }
}

proof fn lemma_digits_value_bounds(s: Seq<char>)
    requires
        all_digits(s),
    ensures
        digits_value(s) >= 0,
        forall|k: int| 0 <= k <= s.len() ==> digits_value(#[trigger] s.take(k)) <= digits_value(s),
    decreases s.len(),
{
    if s.len() == 0 {
        assert forall|k: int| 0 <= k <= s.len() implies digits_value(#[trigger] s.take(k))
            <= digits_value(s) by {
            assert(s.take(k) =~= s);
        }
    } else {
        assert(all_digits(s.drop_last())) by {
            assert(forall|i: int| 0 <= i < s.len() - 1 ==> s.drop_last()[i] == s[i]);
        }
        lemma_digits_value_bounds(s.drop_last());
        assert(digit_val(s.last()) >= 0);
        assert(digits_value(s) >= digits_value(s.drop_last()));
        assert forall|k: int| 0 <= k <= s.len() implies digits_value(#[trigger] s.take(k))
            <= digits_value(s) by {
            if k == s.len() {
                assert(s.take(k) =~= s);
            } else {
                assert(s.take(k) =~= s.drop_last().take(k));
            }
        }
    }
}

/// Parse a decimal integer exactly as `str::parse::<i32>` does.
pub fn parse_i32(s: &str) -> (r: Option<i32>)
    ensures
        r == spec_parse_i32(s@),
{
    let len = s.unicode_len();
    if len == 0 {
        return None;
    }
    let c0 = s.get_char(0);
    let neg = c0 == '-';
    let start: usize = if c0 == '-' || c0 == '+' {
        1
    } else {
        0
    };
    let ghost ds = if start == 1 {
        s@.drop_first()
    } else {
        s@
    };
    proof {
        assert(ds.len() == len - start);
        assert(forall|t: int| 0 <= t < ds.len() ==> ds[t] == s@[start + t]);
    }
    if start == len {
        return None;
    }
    let mut acc: i64 = 0;
    let mut i: usize = start;
    while i < len
        invariant
            start <= i <= len,
            len == s@.len(),
            len > 0,
            start == 0 || start == 1,
            (start == 1) <==> (s@[0] == '-' || s@[0] == '+'),
            neg == (s@[0] == '-'),
            ds == (if start == 1 {
                s@.drop_first()
            } else {
                s@
            }),
            ds.len() == len - start,
            forall|t: int| 0 <= t < ds.len() ==> ds[t] == s@[start + t],
            all_digits(ds.take(i - start)),
            acc == digits_value(ds.take(i - start)),
            0 <= acc <= 0x8000_0000,
        decreases len - i,
    {
        let c = s.get_char(i);
        if !(c >= '0' && c <= '9') {
            proof {
                assert(ds[i - start] == c);
                assert(!is_digit_char(c));
                assert(!all_digits(ds));
            }
            return None;
        }
        let d = (c as u32 - '0' as u32) as i64;
        let next = acc * 10 + d;
        proof {
            assert(ds.take(i + 1 - start).drop_last() =~= ds.take(i - start));
            assert(ds.take(i + 1 - start).last() == ds[i - start]);
            assert(ds[i - start] == c);
            assert(digit_val(c) == d as int);
            assert(digits_value(ds.take(i + 1 - start)) == acc * 10 + digit_val(c));
            assert(all_digits(ds.take(i + 1 - start))) by {
                assert forall|t: int| 0 <= t < i + 1 - start implies is_digit_char(
                    #[trigger] ds.take(i + 1 - start)[t],
                ) by {
                    assert(ds.take(i + 1 - start)[t] == ds[t]);
                    if t < i - start {
                        assert(ds.take(i - start)[t] == ds[t]);
                    } else {
                        assert(ds[t] == c);
                    }
                }
            }
        }
        if next > 0x8000_0000 {
            proof {
                if all_digits(ds) {
                    lemma_digits_value_bounds(ds);
                    assert(digits_value(ds.take(i + 1 - start)) <= digits_value(ds));
                    assert(digits_value(ds) > 0x8000_0000);
                }
            }
            return None;
        }
        acc = next;
        i = i + 1;
    }
    proof {
        assert(ds.take(len - start) =~= ds);
    }
    if neg {
        Some((-acc) as i32)
    } else {
        if acc == 0x8000_0000 {
            return None;
        }
        Some(acc as i32)
    }
}

/// Exact string equality.
pub fn str_eq(a: &str, b: &str) -> (r: bool)
    ensures
        r == (a@ == b@),
{
    let n = a.unicode_len();
    if n != b.unicode_len() {
        return false;
    }
    let mut i: usize = 0;
    while i < n
        invariant
            0 <= i <= n,
            n == a@.len(),
            n == b@.len(),
            forall|t: int| 0 <= t < i ==> a@[t] == b@[t],
        decreases n - i,
    {
        if a.get_char(i) != b.get_char(i) {
            return false;
        }
        i = i + 1;
    }
    proof {
        assert(a@ =~= b@);
    }
    true
}

/// A path separator.
pub open spec fn is_sep(c: char) -> bool {
    c == '/' || c == '\\'
}

/// Index of the first character of the path's final component: the position
/// right after the last separator, or zero when there is none.
pub open spec fn file_start(p: Seq<char>) -> int
    decreases p.len(),
{
    if p.len() == 0 {
        0
    } else if is_sep(p.last()) {
        p.len() as int
    } else {
        file_start(p.drop_last())
    }
}

/// Index of the last dot in the path, or -1 when there is none.
pub open spec fn last_dot(p: Seq<char>) -> int
    decreases p.len(),
{
    if p.len() == 0 {
        -1
    } else if p.last() == '.' {
        p.len() - 1
    } else {
        last_dot(p.drop_last())
    }
}

/// The path's extension: what follows the last dot of the final component,
/// unless that dot begins the component (a hidden file) or there is no dot.
pub open spec fn path_extension(p: Seq<char>) -> Option<Seq<char>> {
    if last_dot(p) > file_start(p) {
        Some(p.subrange(last_dot(p) + 1, p.len() as int))
    } else {
        None
    }
}

proof fn lemma_file_start(p: Seq<char>)
    ensures
        0 <= file_start(p) <= p.len(),
        forall|k: int| file_start(p) <= k < p.len() ==> !is_sep(p[k]),
        file_start(p) > 0 ==> is_sep(p[file_start(p) - 1]),
    decreases p.len(),
{
    if p.len() == 0 {
    } else if is_sep(p.last()) {
    } else {
        lemma_file_start(p.drop_last());
        assert(forall|k: int| 0 <= k < p.len() - 1 ==> p.drop_last()[k] == p[k]);
    }
}

proof fn lemma_last_dot(p: Seq<char>)
    ensures
        -1 <= last_dot(p) < p.len(),
        forall|k: int| last_dot(p) < k < p.len() ==> p[k] != '.',
        last_dot(p) >= 0 ==> p[last_dot(p)] == '.',
    decreases p.len(),
{
    if p.len() == 0 {
    } else if p.last() == '.' {
    } else {
        lemma_last_dot(p.drop_last());
        assert(forall|k: int| 0 <= k < p.len() - 1 ==> p.drop_last()[k] == p[k]);
    }
}

/// The extension of a path, as `path_extension` defines it.
pub fn extension_of(path: &str) -> (r: Option<String>)
    ensures
        r matches Some(e) ==> path_extension(path@) == Some(e@),
        r is None ==> path_extension(path@) is None,
{
    proof {
        lemma_file_start(path@);
        lemma_last_dot(path@);
    }
    let len = path.unicode_len();
    let mut i: usize = len;
    while i > 0
        invariant
            0 <= i <= len,
            len == path@.len(),
            forall|k: int| i <= k < len ==> path@[k] != '.' && !is_sep(path@[k]),
        decreases i,
    {
        let c = path.get_char(i - 1);
        if c == '.' {
            let dp = i - 1;
            proof {
                lemma_file_start(path@);
                lemma_last_dot(path@);
                assert(last_dot(path@) == dp) by {
                    if last_dot(path@) > dp {
                        assert(path@[last_dot(path@)] == '.');
                    }
                    if last_dot(path@) < dp {
                        assert(path@[dp as int] != '.');
                    }
                }
            }
            if dp == 0 {
                return None;
            }
            let before = path.get_char(dp - 1);
            if before == '/' || before == '\\' {
                proof {
                    assert(file_start(path@) == dp) by {
                        if file_start(path@) > dp {
                            assert(!is_sep(path@[file_start(path@) - 1]));
                        }
                        if file_start(path@) < dp {
                            assert(!is_sep(path@[dp - 1]));
                        }
                    }
                }
                return None;
            }
            proof {
                assert(file_start(path@) < dp) by {
                    if file_start(path@) > dp {
                        assert(!is_sep(path@[file_start(path@) - 1]));
                    }
                    if file_start(path@) == dp {
                        assert(is_sep(path@[dp - 1]));
                    }
                }
            }
            return Some(path.substring_char(dp + 1, len).to_owned());
        }
        if c == '/' || c == '\\' {
            proof {
                lemma_file_start(path@);
                lemma_last_dot(path@);
                assert(file_start(path@) == i) by {
                    if file_start(path@) > i {
                        assert(!is_sep(path@[file_start(path@) - 1]));
                    }
                    if file_start(path@) < i {
                        assert(!is_sep(path@[i - 1]));
                    }
                }
                assert(last_dot(path@) < i) by {
                    if last_dot(path@) >= i {
                        assert(path@[last_dot(path@)] == '.');
                    }
                }
            }
            return None;
        }
        i = i - 1;
    }
    proof {
        assert(file_start(path@) == 0) by {
            if file_start(path@) > 0 {
                assert(!is_sep(path@[file_start(path@) - 1]));
            }
        }
        assert(last_dot(path@) == -1) by {
            if last_dot(path@) >= 0 {
                assert(path@[last_dot(path@)] != '.');
            }
        }
    }
    None
}

/// `a` equals `b` up to lowering an ASCII capital in `a`; `b` is the
/// lowercase reference character.
pub open spec fn lower_matches(a: char, b: char) -> bool {
    a == b || ('A' <= a <= 'Z' && a as u32 + 32 == b as u32)
}

/// The string equals the reference up to lowering ASCII capitals; the
/// reference is already lowercase.
pub open spec fn matches_ci(s: Seq<char>, lit: Seq<char>) -> bool {
    s.len() == lit.len() && forall|i: int| 0 <= i < s.len() ==> lower_matches(s[i], lit[i])
}

/// Compare against a lowercase reference, ignoring ASCII case in `s`.
pub fn eq_ignore_ascii_upper(s: &str, lit: &str) -> (r: bool)
    ensures
        r == matches_ci(s@, lit@),
{
    let n = s.unicode_len();
    if n != lit.unicode_len() {
        return false;
    }
    let mut i: usize = 0;
    while i < n
        invariant
            0 <= i <= n,
            n == s@.len(),
            n == lit@.len(),
            forall|t: int| 0 <= t < i ==> lower_matches(s@[t], lit@[t]),
        decreases n - i,
    {
        let a = s.get_char(i);
        let b = lit.get_char(i);
        let same = a == b || (a >= 'A' && a <= 'Z' && a as u32 + 32 == b as u32);
        if !same {
            return false;
        }
        i = i + 1;
    }
    true
}

} // verus!

//! String facts the rest of the library is stated over, and the string
//! operations it needs, proved against them.
use vstd::prelude::*;

verus! {

/// `needle` occurs as a contiguous run of characters somewhere in `hay`.
pub open spec fn contains_seq(hay: Seq<char>, needle: Seq<char>) -> bool {
    exists|i: int|
        0 <= i && i + needle.len() <= hay.len() && #[trigger] hay.subrange(i, i + needle.len())
            == needle
}

/// `s` ends with `suffix`.
pub open spec fn ends_with_seq(s: Seq<char>, suffix: Seq<char>) -> bool {
    suffix.len() <= s.len() && s.subrange(s.len() - suffix.len(), s.len() as int) == suffix
}

/// Whether two string slices have the same characters.
pub fn str_eq(a: &str, b: &str) -> (res: bool)
    ensures
        res == (a@ == b@),
{
    let x = a.to_owned();
    let y = b.to_owned();
    x == y
}

/// Whether `needle` occurs in `hay`.
pub fn str_contains(hay: &str, needle: &str) -> (res: bool)
    ensures
        res == contains_seq(hay@, needle@),
{
    let n = hay.unicode_len();
    let k = needle.unicode_len();
    if k > n {
        return false;
    }
    if k == 0 {
        assert(hay@.subrange(0, 0 + needle@.len() as int) =~= needle@);
        return true;
    }
    let mut i: usize = 0;
    while i <= n - k
        invariant
            n == hay@.len(),
            k == needle@.len(),
            1 <= k <= n,
            0 <= i <= n - k + 1,
            forall|j: int| 0 <= j < i ==> #[trigger] hay@.subrange(j, j + k) != needle@,
        decreases n - k + 1 - i,
    {
        if str_eq(hay.substring_char(i, i + k), needle) {
            return true;
        }
        i = i + 1;
    }
    false
}

/// Whether `s` ends with `suffix`.
pub fn str_ends_with(s: &str, suffix: &str) -> (res: bool)
    ensures
        res == ends_with_seq(s@, suffix@),
{
    let n = s.unicode_len();
    let k = suffix.unicode_len();
    if k > n {
        return false;
    }
    str_eq(s.substring_char(n - k, n), suffix)
}

/// Unicode `White_Space`, the property `char::is_whitespace` tests.
pub open spec fn is_white_space(c: char) -> bool {
    ||| '\u{9}' <= c <= '\u{d}'
    ||| c == ' '
    ||| c == '\u{85}'
    ||| c == '\u{a0}'
    ||| c == '\u{1680}'
    ||| '\u{2000}' <= c <= '\u{200a}'
    ||| c == '\u{2028}'
    ||| c == '\u{2029}'
    ||| c == '\u{202f}'
    ||| c == '\u{205f}'
    ||| c == '\u{3000}'
}

/// Whether `c` is Unicode white space.
pub fn is_white_space_char(c: char) -> (res: bool)
    ensures
        res == is_white_space(c),
{
    ('\u{9}' <= c && c <= '\u{d}') || c == ' ' || c == '\u{85}' || c == '\u{a0}' || c
        == '\u{1680}' || ('\u{2000}' <= c && c <= '\u{200a}') || c == '\u{2028}' || c
        == '\u{2029}' || c == '\u{202f}' || c == '\u{205f}' || c == '\u{3000}'
}

/// `s` without its leading white space.
pub open spec fn trim_start_seq(s: Seq<char>) -> Seq<char>
    decreases s.len(),
{
    if s.len() > 0 && is_white_space(s[0]) {
        trim_start_seq(s.drop_first())
    } else {
        s
    }
}

/// `s` without its trailing white space.
pub open spec fn trim_end_seq(s: Seq<char>) -> Seq<char>
    decreases s.len(),
{
    if s.len() > 0 && is_white_space(s.last()) {
        trim_end_seq(s.drop_last())
    } else {
        s
    }
}

/// `s` without leading and trailing white space, as `str::trim` gives it.
pub open spec fn trim_seq(s: Seq<char>) -> Seq<char> {
    trim_end_seq(trim_start_seq(s))
}

proof fn lemma_trim_start(s: Seq<char>, i: int)
    requires
        0 <= i <= s.len(),
        forall|j: int| 0 <= j < i ==> is_white_space(#[trigger] s[j]),
        i == s.len() || !is_white_space(s[i]),
    ensures
        trim_start_seq(s) == s.subrange(i, s.len() as int),
    decreases i,
{
    if i == 0 {
        assert(s.subrange(0, s.len() as int) =~= s);
    } else {
        assert(is_white_space(s[0]));
        let t = s.drop_first();
        assert forall|j: int| 0 <= j < i - 1 implies is_white_space(#[trigger] t[j]) by {
            assert(t[j] == s[j + 1]);
        }
        if i - 1 < t.len() {
            assert(t[i - 1] == s[i]);
        }
        lemma_trim_start(t, i - 1);
        assert(t.subrange(i - 1, t.len() as int) =~= s.subrange(i, s.len() as int));
    }
}

proof fn lemma_trim_end(t: Seq<char>, e: int)
    requires
        0 <= e <= t.len(),
        forall|j: int| e <= j < t.len() ==> is_white_space(#[trigger] t[j]),
        e == 0 || !is_white_space(t[e - 1]),
    ensures
        trim_end_seq(t) == t.subrange(0, e),
    decreases t.len() - e,
{
    if e == t.len() {
        assert(t.subrange(0, e) =~= t);
    } else {
        assert(is_white_space(t.last()));
        let u = t.drop_last();
        assert forall|j: int| e <= j < u.len() implies is_white_space(#[trigger] u[j]) by {
            assert(u[j] == t[j]);
        }
        if e > 0 {
            assert(u[e - 1] == t[e - 1]);
        }
        lemma_trim_end(u, e);
        assert(u.subrange(0, e) =~= t.subrange(0, e));
    }
}

/// `s` with leading and trailing white space removed.
pub fn str_trim<'a>(s: &'a str) -> (res: &'a str)
    ensures
        res@ == trim_seq(s@),
{
    let n = s.unicode_len();
    let mut start: usize = 0;
    while start < n && is_white_space_char(s.get_char(start))
        invariant
            n == s@.len(),
            0 <= start <= n,
            forall|j: int| 0 <= j < start ==> is_white_space(#[trigger] s@[j]),
        decreases n - start,
    {
        start = start + 1;
    }
    proof {
        lemma_trim_start(s@, start as int);
    }
    let mut end: usize = n;
    while end > start && is_white_space_char(s.get_char(end - 1))
        invariant
            n == s@.len(),
            0 <= start <= end <= n,
            forall|j: int| end <= j < n ==> is_white_space(#[trigger] s@[j]),
        decreases end - start,
    {
        end = end - 1;
    }
    proof {
        let t = s@.subrange(start as int, n as int);
        assert forall|j: int| end - start <= j < t.len() implies is_white_space(#[trigger] t[j]) by {
            assert(t[j] == s@[j + start]);
        }
        if end > start {
            assert(t[end - start - 1] == s@[end - 1]);
        }
        lemma_trim_end(t, end - start);
        assert(t.subrange(0, end - start) =~= s@.subrange(start as int, end as int));
    }
    s.substring_char(start, end)
}

/// Reading `s` from the left: the words completed so far, and the word
/// being read (empty between words). A word is a maximal run of characters
/// that are not white space.
pub open spec fn words_scan(s: Seq<char>) -> (Seq<Seq<char>>, Seq<char>)
    decreases s.len(),
{
    if s.len() == 0 {
        (Seq::empty(), Seq::empty())
    } else {
        let (done, current) = words_scan(s.drop_last());
        let c = s.last();
        if is_white_space(c) {
            if current.len() > 0 {
                (done.push(current), Seq::empty())
            } else {
                (done, current)
            }
        } else {
            (done, current.push(c))
        }
    }
}

/// The words of `s` split at white space, as `str::split_whitespace`
/// yields them: no empty words, none containing white space, in order.
pub open spec fn split_whitespace_spec(s: Seq<char>) -> Seq<Seq<char>> {
    let (done, current) = words_scan(s);
    if current.len() > 0 {
        done.push(current)
    } else {
        done
    }
}

/// No character of `w` is white space.
pub open spec fn has_no_white_space(w: Seq<char>) -> bool {
    forall|i: int| 0 <= i < w.len() ==> !is_white_space(#[trigger] w[i])
}

proof fn words_scan_clean(s: Seq<char>)
    ensures
        forall|k: int|
            0 <= k < words_scan(s).0.len() ==> #[trigger] words_scan(s).0[k].len() > 0
                && has_no_white_space(words_scan(s).0[k]),
        has_no_white_space(words_scan(s).1),
    decreases s.len(),
{
    if s.len() > 0 {
        words_scan_clean(s.drop_last());
    }
}

/// Splitting at white space never yields an empty word, nor one that
/// holds white space.
pub proof fn split_words_are_clean(s: Seq<char>)
    ensures
        forall|k: int|
            0 <= k < split_whitespace_spec(s).len() ==> #[trigger] split_whitespace_spec(s)[k].len()
                > 0 && has_no_white_space(split_whitespace_spec(s)[k]),
{
    words_scan_clean(s);
}

proof fn trim_start_index(s: Seq<char>) -> (i: int)
    ensures
        0 <= i <= s.len(),
        forall|k: int| 0 <= k < i ==> is_white_space(#[trigger] s[k]),
        i == s.len() || !is_white_space(s[i]),
        trim_start_seq(s) == s.subrange(i, s.len() as int),
    decreases s.len(),
{
    if s.len() > 0 && is_white_space(s[0]) {
        let t = s.drop_first();
        let j = trim_start_index(t);
        assert forall|k: int| 0 <= k < j + 1 implies is_white_space(#[trigger] s[k]) by {
            if k > 0 {
                assert(s[k] == t[k - 1]);
            }
        }
        if j + 1 < s.len() {
            assert(s[j + 1] == t[j]);
        }
        assert(t.subrange(j, t.len() as int) =~= s.subrange(j + 1, s.len() as int));
        j + 1
    } else {
        assert(s.subrange(0, s.len() as int) =~= s);
        0
    }
}

proof fn trim_end_index(t: Seq<char>) -> (e: int)
    ensures
        0 <= e <= t.len(),
        forall|k: int| e <= k < t.len() ==> is_white_space(#[trigger] t[k]),
        e == 0 || !is_white_space(t[e - 1]),
        trim_end_seq(t) == t.subrange(0, e),
    decreases t.len(),
{
    if t.len() > 0 && is_white_space(t.last()) {
        let u = t.drop_last();
        let e = trim_end_index(u);
        assert forall|k: int| e <= k < t.len() implies is_white_space(#[trigger] t[k]) by {
            if k < u.len() {
                assert(t[k] == u[k]);
            }
        }
        if e > 0 {
            assert(t[e - 1] == u[e - 1]);
        }
        assert(u.subrange(0, e) =~= t.subrange(0, e));
        e
    } else {
        assert(t.subrange(0, t.len() as int) =~= t);
        t.len() as int
    }
}

/// Trimming removes white space from both ends and nothing else: the
/// result is the stretch of `s` between a run of white space at its start
/// and a run at its end, and it neither starts nor ends with white space.
pub proof fn trim_removes_only_outer_white_space(s: Seq<char>)
    ensures
        exists|i: int, j: int|
            0 <= i <= j <= s.len() && trim_seq(s) == s.subrange(i, j) && (forall|k: int|
                0 <= k < i ==> is_white_space(#[trigger] s[k])) && (forall|k: int|
                j <= k < s.len() ==> is_white_space(#[trigger] s[k])),
        trim_seq(s).len() > 0 ==> !is_white_space(trim_seq(s)[0]) && !is_white_space(
            trim_seq(s).last(),
        ),
{
    let i = trim_start_index(s);
    let t = s.subrange(i, s.len() as int);
    let e = trim_end_index(t);
    let j = i + e;
    assert(t.subrange(0, e) =~= s.subrange(i, j));
    assert forall|k: int| j <= k < s.len() implies is_white_space(#[trigger] s[k]) by {
        assert(s[k] == t[k - i]);
    }
    let r = trim_seq(s);
    if r.len() > 0 {
        assert(r[0] == s[i]);
        assert(r.last() == t[e - 1]);
    }
}

proof fn scan_of_one_word(s: Seq<char>)
    requires
        has_no_white_space(s),
    ensures
        words_scan(s) == (Seq::<Seq<char>>::empty(), s),
    decreases s.len(),
{
    if s.len() > 0 {
        let init = s.drop_last();
        assert(has_no_white_space(init)) by {
            assert forall|i: int| 0 <= i < init.len() implies !is_white_space(#[trigger] init[i]) by {
                assert(init[i] == s[i]);
            }
        }
        scan_of_one_word(init);
        assert(!is_white_space(s[s.len() - 1]));
        assert(init.push(s.last()) =~= s);
    }
}

proof fn scan_of_blank(s: Seq<char>)
    requires
        forall|i: int| 0 <= i < s.len() ==> is_white_space(#[trigger] s[i]),
    ensures
        words_scan(s) == (Seq::<Seq<char>>::empty(), Seq::<char>::empty()),
    decreases s.len(),
{
    if s.len() > 0 {
        let init = s.drop_last();
        assert forall|i: int| 0 <= i < init.len() implies is_white_space(#[trigger] init[i]) by {
            assert(init[i] == s[i]);
        }
        scan_of_blank(init);
        assert(is_white_space(s[s.len() - 1]));
    }
}

/// Text without white space is one word, and text that is only white
/// space has no words.
pub proof fn split_whole_words(s: Seq<char>)
    ensures
        has_no_white_space(s) && s.len() > 0 ==> split_whitespace_spec(s) == seq![s],
        (forall|i: int| 0 <= i < s.len() ==> is_white_space(#[trigger] s[i]))
            ==> split_whitespace_spec(s).len() == 0,
{
    if has_no_white_space(s) && s.len() > 0 {
        scan_of_one_word(s);
        assert(Seq::<Seq<char>>::empty().push(s) =~= seq![s]);
    }
    if forall|i: int| 0 <= i < s.len() ==> is_white_space(#[trigger] s[i]) {
        scan_of_blank(s);
    }
}

/// The characters of each string.
pub open spec fn string_views(v: Seq<String>) -> Seq<Seq<char>> {
    v.map_values(|s: String| s@)
}

/// The words of `s`, split at white space.
pub fn split_words(s: &str) -> (words: Vec<String>)
    ensures
        string_views(words@) == split_whitespace_spec(s@),
{
    let n = s.unicode_len();
    let mut words: Vec<String> = Vec::new();
    let mut start: usize = 0;
    let mut i: usize = 0;
    while i < n
        invariant
            n == s@.len(),
            0 <= start <= i <= n,
            words_scan(s@.take(i as int)) == (string_views(words@), s@.subrange(
                start as int,
                i as int,
            )),
        decreases n - i,
    {
        let c = s.get_char(i);
        let ghost before = string_views(words@);
        assert(s@.take(i + 1).drop_last() =~= s@.take(i as int));
        assert(s@.take(i + 1).last() == c);
        if is_white_space_char(c) {
            if start < i {
                words.push(s.substring_char(start, i).to_owned());
                assert(string_views(words@) =~= before.push(s@.subrange(start as int, i as int)));
            }
            start = i + 1;
            assert(s@.subrange(start as int, i + 1) =~= Seq::<char>::empty());
        } else {
            assert(s@.subrange(start as int, i + 1) =~= s@.subrange(start as int, i as int).push(
                c,
            ));
        }
        i = i + 1;
    }
    assert(s@.take(n as int) =~= s@);
    if start < n {
        let ghost before = string_views(words@);
        words.push(s.substring_char(start, n).to_owned());
        assert(string_views(words@) =~= before.push(s@.subrange(start as int, n as int)));
    }
    words
}

/// An ASCII decimal digit.
pub open spec fn is_digit(c: char) -> bool {
    '0' <= c <= '9'
}

/// Every character of `s` is an ASCII decimal digit.
pub open spec fn all_digits(s: Seq<char>) -> bool {
    forall|i: int| 0 <= i < s.len() ==> is_digit(#[trigger] s[i])
}

/// The number that a run of decimal digits writes.
pub open spec fn decimal_value(digits: Seq<char>) -> int
    decreases digits.len(),
{
    if digits.len() == 0 {
        0
    } else {
        decimal_value(digits.drop_last()) * 10 + (digits.last() as int - '0' as int)
    }
}

/// `s` without one leading `+`.
pub open spec fn unsigned_digits(s: Seq<char>) -> Seq<char> {
    if s.len() > 0 && s[0] == '+' {
        s.drop_first()
    } else {
        s
    }
}

/// What `u32::from_str` gives: an optional `+` followed by one or more
/// decimal digits whose value fits in a `u32`; anything else is an error.
pub open spec fn u32_from_str_spec(s: Seq<char>) -> Option<u32> {
    let digits = unsigned_digits(s);
    if digits.len() > 0 && all_digits(digits) && decimal_value(digits) <= u32::MAX {
        Some(decimal_value(digits) as u32)
    } else {
        None
    }
}

proof fn lemma_decimal_value_grows(digits: Seq<char>, i: int)
    requires
        all_digits(digits),
        0 <= i <= digits.len(),
    ensures
        0 <= decimal_value(digits.take(i)) <= decimal_value(digits),
    decreases digits.len() - i,
{
    if i == digits.len() {
        assert(digits.take(i) =~= digits);
        lemma_decimal_value_nonneg(digits);
    } else {
        lemma_decimal_value_grows(digits, i + 1);
        let p = digits.take(i + 1);
        assert(p.drop_last() =~= digits.take(i));
        assert(is_digit(digits[i]));
        lemma_decimal_value_nonneg(digits.take(i));
    }
}

proof fn lemma_decimal_value_nonneg(digits: Seq<char>)
    requires
        all_digits(digits),
    ensures
        decimal_value(digits) >= 0,
    decreases digits.len(),
{
    if digits.len() > 0 {
        assert(is_digit(digits[digits.len() - 1]));
        lemma_decimal_value_nonneg(digits.drop_last());
    }
}

/// The value of `s` parsed as a `u32`, as `u32::from_str` gives it.
pub fn parse_u32(s: &str) -> (res: Option<u32>)
    ensures
        res == u32_from_str_spec(s@),
{
    let n = s.unicode_len();
    let digits = if n > 0 && s.get_char(0) == '+' {
        s.substring_char(1, n)
    } else {
        s
    };
    proof {
        if n > 0 && s@[0] == '+' {
            assert(digits@ =~= s@.drop_first());
        }
    }
    assert(digits@ == unsigned_digits(s@));
    let m = digits.unicode_len();
    if m == 0 || !is_all_digits(digits) {
        return None;
    }
    let mut value: u64 = 0;
    let mut i: usize = 0;
    while i < m
        invariant
            m == digits@.len(),
            digits@ == unsigned_digits(s@),
            all_digits(digits@),
            0 <= i <= m,
            value == decimal_value(digits@.take(i as int)),
            value <= u32::MAX,
        decreases m - i,
    {
        let c = digits.get_char(i);
        assert(is_digit(digits@[i as int]));
        let d: u64 = ((c as u32) - ('0' as u32)) as u64;
        let next: u64 = value * 10 + d;
        assert(digits@.take(i + 1).drop_last() =~= digits@.take(i as int));
        assert(next == decimal_value(digits@.take(i + 1)));
        if next > 4294967295 {
            proof {
                lemma_decimal_value_grows(digits@, i + 1);
                assert(decimal_value(digits@) > u32::MAX);
            }
            return None;
        }
        value = next;
        i = i + 1;
    }
    assert(digits@.take(m as int) =~= digits@);
    Some(value as u32)
}

/// Whether every character of `s` is an ASCII decimal digit.
pub fn is_all_digits(s: &str) -> (res: bool)
    ensures
        res == all_digits(s@),
{
    let n = s.unicode_len();
    let mut i: usize = 0;
    while i < n
        invariant
            n == s@.len(),
            0 <= i <= n,
            forall|j: int| 0 <= j < i ==> is_digit(#[trigger] s@[j]),
        decreases n - i,
    {
        let c = s.get_char(i);
        if !('0' <= c && c <= '9') {
            assert(!is_digit(s@[i as int]));
            return false;
        }
        i = i + 1;
    }
    true
}

} // verus!

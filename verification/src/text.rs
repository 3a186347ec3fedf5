//! Text primitives over sequences of characters.
//!
//! Every string in this crate is viewed as a `Seq<char>`. The spec functions here
//! say what trimming, prefix tests, substitution, splitting and decimal notation
//! mean on such sequences; the executable functions compute them on `&str`.

use vstd::prelude::*;
use vstd::string::*;

verus! {

/// The model of an optional text.
pub open spec fn text_model(text: Option<&str>) -> Option<Seq<char>> {
    match text {
        Some(t) => Some(t@),
        None => None,
    }
}

/// The characters with the Unicode `White_Space` property.
pub open spec fn is_whitespace(c: char) -> bool {
    ||| ('\u{9}' <= c && c <= '\u{d}')
    ||| c == ' '
    ||| c == '\u{85}'
    ||| c == '\u{a0}'
    ||| c == '\u{1680}'
    ||| ('\u{2000}' <= c && c <= '\u{200a}')
    ||| c == '\u{2028}'
    ||| c == '\u{2029}'
    ||| c == '\u{202f}'
    ||| c == '\u{205f}'
    ||| c == '\u{3000}'
}

/// `s` without its leading whitespace.
pub open spec fn trim_start(s: Seq<char>) -> Seq<char>
    decreases s.len(),
{
    if s.len() > 0 && is_whitespace(s[0]) {
        trim_start(s.drop_first())
    } else {
        s
    }
}

/// `s` without its trailing whitespace.
pub open spec fn trim_end(s: Seq<char>) -> Seq<char>
    decreases s.len(),
{
    if s.len() > 0 && is_whitespace(s.last()) {
        trim_end(s.drop_last())
    } else {
        s
    }
}

/// `s` without leading and trailing whitespace.
pub open spec fn trimmed(s: Seq<char>) -> Seq<char> {
    trim_end(trim_start(s))
}

/// `s` without any trailing occurrence of `c`.
pub open spec fn strip_trailing(s: Seq<char>, c: char) -> Seq<char>
    decreases s.len(),
{
    if s.len() > 0 && s.last() == c {
        strip_trailing(s.drop_last(), c)
    } else {
        s
    }
}

/// `text` with every occurrence of `pattern` replaced by `with`, scanning from the
/// left and skipping over each occurrence once it is replaced. An empty pattern
/// occurs nowhere.
pub open spec fn replaced(text: Seq<char>, pattern: Seq<char>, with: Seq<char>) -> Seq<char>
    decreases text.len(),
{
    if pattern.len() == 0 || text.len() == 0 {
        text
    } else if pattern.is_prefix_of(text) {
        with + replaced(text.skip(pattern.len() as int), pattern, with)
    } else {
        seq![text[0]] + replaced(text.drop_first(), pattern, with)
    }
}

/// The pieces of `s` between occurrences of `sep`. There is always one piece more
/// than there are separators, so the result is never empty.
pub open spec fn split_on(s: Seq<char>, sep: char) -> Seq<Seq<char>>
    decreases s.len(),
{
    if s.len() == 0 {
        seq![Seq::<char>::empty()]
    } else {
        let before = split_on(s.drop_last(), sep);
        if s.last() == sep {
            before.push(Seq::<char>::empty())
        } else {
            before.drop_last().push(before.last().push(s.last()))
        }
    }
}

/// The character that writes the digit `d`.
pub open spec fn digit_char(d: nat) -> char {
    if d == 0 {
        '0'
    } else if d == 1 {
        '1'
    } else if d == 2 {
        '2'
    } else if d == 3 {
        '3'
    } else if d == 4 {
        '4'
    } else if d == 5 {
        '5'
    } else if d == 6 {
        '6'
    } else if d == 7 {
        '7'
    } else if d == 8 {
        '8'
    } else {
        '9'
    }
}

/// `n` in decimal notation, without leading zeros.
pub open spec fn decimal(n: nat) -> Seq<char>
    decreases n,
{
    if n < 10 {
        seq![digit_char(n)]
    } else {
        decimal(n / 10).push(digit_char(n % 10))
    }
}

/// Trimming removes exactly the whitespace before `start` and from `end` on, when
/// the characters at both ends of what is left are not whitespace.
pub proof fn lemma_trimmed_is_subrange(s: Seq<char>, start: int, end: int)
    requires
        0 <= start <= end <= s.len(),
        forall|k: int| 0 <= k < start ==> is_whitespace(s[k]),
        forall|k: int| end <= k < s.len() ==> is_whitespace(s[k]),
        start < end ==> !is_whitespace(s[start]) && !is_whitespace(s[end - 1]),
        start == end ==> end == s.len(),
    ensures
        trimmed(s) == s.subrange(start, end),
{
    lemma_trim_start_is_skip(s, start);
    let rest = s.skip(start);
    assert forall|k: int| end - start <= k < rest.len() implies is_whitespace(rest[k]) by {
        assert(rest[k] == s[k + start]);
    }
    if start < end {
        assert(rest[end - start - 1] == s[end - 1]);
    }
    lemma_trim_end_is_take(rest, end - start);
    assert(rest.take(end - start) =~= s.subrange(start, end));
}

proof fn lemma_trim_start_is_skip(s: Seq<char>, k: int)
    requires
        0 <= k <= s.len(),
        forall|i: int| 0 <= i < k ==> is_whitespace(s[i]),
        k < s.len() ==> !is_whitespace(s[k]),
    ensures
        trim_start(s) == s.skip(k),
    decreases k,
{
    if k == 0 {
        assert(s.skip(0) =~= s);
    } else {
        let rest = s.drop_first();
        assert forall|i: int| 0 <= i < k - 1 implies is_whitespace(rest[i]) by {
            assert(rest[i] == s[i + 1]);
        }
        if k - 1 < rest.len() {
            assert(rest[k - 1] == s[k]);
        }
        lemma_trim_start_is_skip(rest, k - 1);
        assert(rest.skip(k - 1) =~= s.skip(k));
    }
}

proof fn lemma_trim_end_is_take(s: Seq<char>, k: int)
    requires
        0 <= k <= s.len(),
        forall|i: int| k <= i < s.len() ==> is_whitespace(s[i]),
        k > 0 ==> !is_whitespace(s[k - 1]),
    ensures
        trim_end(s) == s.take(k),
    decreases s.len() - k,
{
    if k == s.len() {
        assert(s.take(k) =~= s);
    } else {
        let rest = s.drop_last();
        assert forall|i: int| k <= i < rest.len() implies is_whitespace(rest[i]) by {
            assert(rest[i] == s[i]);
        }
        if k > 0 {
            assert(rest[k - 1] == s[k - 1]);
        }
        lemma_trim_end_is_take(rest, k);
        assert(rest.take(k) =~= s.take(k));
    }
}

/// A sequence that neither starts nor ends with whitespace is its own trimming.
pub proof fn lemma_trimmed_fixed(s: Seq<char>)
    requires
        s.len() > 0 ==> !is_whitespace(s[0]) && !is_whitespace(s.last()),
    ensures
        trimmed(s) == s,
{
    lemma_trimmed_is_subrange(s, 0, s.len() as int);
    assert(s.subrange(0, s.len() as int) =~= s);
}

/// What trimming leaves is empty, or starts and ends with a character that is
/// not whitespace.
pub proof fn lemma_trimmed_ends(s: Seq<char>)
    ensures
        trimmed(s).len() > 0 ==> !is_whitespace(trimmed(s)[0]) && !is_whitespace(
            trimmed(s).last(),
        ),
        trimmed(s).len() <= s.len(),
{
    lemma_trim_start_shape(s);
    lemma_trim_end_shape(trim_start(s));
}

proof fn lemma_trim_start_shape(s: Seq<char>)
    ensures
        trim_start(s).len() <= s.len(),
        trim_start(s).len() > 0 ==> !is_whitespace(trim_start(s)[0]),
        trim_start(s).len() > 0 ==> trim_start(s).last() == s.last(),
    decreases s.len(),
{
    if s.len() > 0 && is_whitespace(s[0]) {
        lemma_trim_start_shape(s.drop_first());
    }
}

proof fn lemma_trim_end_shape(s: Seq<char>)
    ensures
        trim_end(s).len() <= s.len(),
        trim_end(s).len() > 0 ==> !is_whitespace(trim_end(s).last()),
        trim_end(s).len() > 0 ==> trim_end(s)[0] == s[0],
    decreases s.len(),
{
    if s.len() > 0 && is_whitespace(s.last()) {
        lemma_trim_end_shape(s.drop_last());
    }
}

/// What stripping leaves does not end with `c`, and is a prefix of `s`.
pub proof fn lemma_strip_trailing_shape(s: Seq<char>, c: char)
    ensures
        strip_trailing(s, c).is_prefix_of(s),
        strip_trailing(s, c).len() > 0 ==> strip_trailing(s, c).last() != c,
    decreases s.len(),
{
    if s.len() > 0 && s.last() == c {
        lemma_strip_trailing_shape(s.drop_last(), c);
        let t = strip_trailing(s.drop_last(), c);
        assert(t =~= s.subrange(0, t.len() as int));
    } else {
        assert(s =~= s.subrange(0, s.len() as int));
    }
}

proof fn lemma_strip_trailing_is_take(s: Seq<char>, c: char, k: int)
    requires
        0 <= k <= s.len(),
        forall|i: int| k <= i < s.len() ==> s[i] == c,
        k > 0 ==> s[k - 1] != c,
    ensures
        strip_trailing(s, c) == s.take(k),
    decreases s.len() - k,
{
    if k == s.len() {
        assert(s.take(k) =~= s);
    } else {
        let rest = s.drop_last();
        lemma_strip_trailing_is_take(rest, c, k);
        assert(rest.take(k) =~= s.take(k));
    }
}

/// The characters of `s`, in order.
pub fn chars_of(s: &str) -> (v: Vec<char>)
    ensures
        v@ == s@,
{
    let mut v: Vec<char> = Vec::new();
    for c in it: s.chars()
        invariant
            v@ == it.seq().take(it.index() as int),
            it.seq() == s@,
    {
        v.push(c);
    }
    v
}

/// Whether `c` is whitespace.
pub fn is_whitespace_char(c: char) -> (b: bool)
    ensures
        b == is_whitespace(c),
{
    (c >= '\u{9}' && c <= '\u{d}') || c == ' ' || c == '\u{85}' || c == '\u{a0}' || c
        == '\u{1680}' || (c >= '\u{2000}' && c <= '\u{200a}') || c == '\u{2028}' || c
        == '\u{2029}' || c == '\u{202f}' || c == '\u{205f}' || c == '\u{3000}'
}

/// `s` without leading and trailing whitespace.
pub fn trim(s: &str) -> (r: &str)
    ensures
        r@ == trimmed(s@),
{
    let cs = chars_of(s);
    let n = cs.len();
    let mut start: usize = 0;
    while start < n && is_whitespace_char(cs[start])
        invariant
            start <= n,
            n == cs.len(),
            forall|k: int| 0 <= k < start ==> is_whitespace(cs@[k]),
        decreases n - start,
    {
        start += 1;
    }
    let mut end: usize = n;
    while end > start && is_whitespace_char(cs[end - 1])
        invariant
            start <= end <= n,
            n == cs.len(),
            forall|k: int| end <= k < n ==> is_whitespace(cs@[k]),
        decreases end,
    {
        end -= 1;
    }
    proof {
        lemma_trimmed_is_subrange(s@, start as int, end as int);
    }
    s.substring_char(start, end)
}

/// `s` without any trailing occurrence of `c`.
pub fn trim_end_matches(s: &str, c: char) -> (r: &str)
    ensures
        r@ == strip_trailing(s@, c),
{
    let cs = chars_of(s);
    let mut end: usize = cs.len();
    while end > 0 && cs[end - 1] == c
        invariant
            end <= cs.len(),
            forall|k: int| end <= k < cs.len() ==> cs@[k] == c,
        decreases end,
    {
        end -= 1;
    }
    proof {
        lemma_strip_trailing_is_take(s@, c, end as int);
        assert(s@.take(end as int) =~= s@.subrange(0, end as int));
    }
    s.substring_char(0, end)
}

/// Whether `pattern` occurs in `text` at position `at`.
pub open spec fn occurs_at(text: Seq<char>, at: int, pattern: Seq<char>) -> bool {
    0 <= at && at + pattern.len() <= text.len() && text.subrange(at, at + pattern.len())
        == pattern
}

fn matches_at(text: &Vec<char>, at: usize, pattern: &Vec<char>) -> (b: bool)
    requires
        at <= text.len(),
    ensures
        b == occurs_at(text@, at as int, pattern@),
{
    let m = pattern.len();
    if m > text.len() - at {
        return false;
    }
    let mut j: usize = 0;
    while j < m
        invariant
            j <= m,
            m == pattern.len(),
            at + m <= text.len(),
            forall|k: int| 0 <= k < j ==> text@[at + k] == pattern@[k],
        decreases m - j,
    {
        if text[at + j] != pattern[j] {
            proof {
                let window = text@.subrange(at as int, at + m);
                assert(window[j as int] == text@[at + j]);
            }
            return false;
        }
        j += 1;
    }
    assert(text@.subrange(at as int, at + m) =~= pattern@);
    true
}

/// Whether `s` starts with `prefix`.
pub fn starts_with(s: &str, prefix: &str) -> (b: bool)
    ensures
        b == prefix@.is_prefix_of(s@),
{
    let cs = chars_of(s);
    let ps = chars_of(prefix);
    matches_at(&cs, 0, &ps)
}

/// Whether `s` ends with `suffix`.
pub fn ends_with(s: &str, suffix: &str) -> (b: bool)
    ensures
        b == suffix@.is_suffix_of(s@),
{
    let cs = chars_of(s);
    let ps = chars_of(suffix);
    if ps.len() > cs.len() {
        return false;
    }
    matches_at(&cs, cs.len() - ps.len(), &ps)
}

/// Whether `a` and `b` hold the same characters.
pub fn same_text(a: &str, b: &str) -> (r: bool)
    ensures
        r == (a@ == b@),
{
    let x = chars_of(a);
    let y = chars_of(b);
    if x.len() != y.len() {
        return false;
    }
    let r = matches_at(&x, 0, &y);
    proof {
        assert(x@.subrange(0, x@.len() as int) =~= x@);
    }
    r
}

/// Whether `c` occurs in `s`.
pub fn contains_char(s: &str, c: char) -> (b: bool)
    ensures
        b == s@.contains(c),
{
    let cs = chars_of(s);
    let mut i: usize = 0;
    while i < cs.len()
        invariant
            i <= cs.len(),
            cs@ == s@,
            forall|k: int| 0 <= k < i ==> cs@[k] != c,
        decreases cs.len() - i,
    {
        if cs[i] == c {
            assert(s@[i as int] == c);
            return true;
        }
        i += 1;
    }
    false
}

/// `a` followed by `b`.
pub fn concat2(a: &str, b: &str) -> (r: String)
    ensures
        r@ == a@ + b@,
{
    let mut out = String::from_str(a);
    out.append(b);
    out
}

/// `a`, then `b`, then `c`.
pub fn concat3(a: &str, b: &str, c: &str) -> (r: String)
    ensures
        r@ == a@ + b@ + c@,
{
    let mut out = String::from_str(a);
    out.append(b);
    out.append(c);
    out
}

/// `text` with every occurrence of `pattern` replaced by `with`.
pub fn replace_all(text: &str, pattern: &str, with: &str) -> (r: String)
    ensures
        r@ == replaced(text@, pattern@, with@),
{
    let cs = chars_of(text);
    let ps = chars_of(pattern);
    let n = cs.len();
    if ps.len() == 0 {
        return String::from_str(text);
    }
    let mut out = String::new();
    let mut copied: usize = 0;
    let mut i: usize = 0;
    proof {
        assert(text@.skip(0) =~= text@);
        assert(out@ + text@.subrange(0, 0) =~= Seq::<char>::empty());
    }
    while i < n
        invariant
            copied <= i <= n,
            n == cs.len(),
            cs@ == text@,
            ps@ == pattern@,
            ps.len() > 0,
            replaced(text@, pattern@, with@) == out@ + text@.subrange(copied as int, i as int)
                + replaced(text@.skip(i as int), pattern@, with@),
        decreases n - i,
    {
        let ghost rest = text@.skip(i as int);
        if matches_at(&cs, i, &ps) {
            proof {
                assert(rest.subrange(0, ps.len() as int) =~= text@.subrange(
                    i as int,
                    i + ps.len(),
                ));
                assert(rest.skip(ps.len() as int) =~= text@.skip(i + ps.len()));
            }
            out.append(text.substring_char(copied, i));
            out.append(with);
            i += ps.len();
            copied = i;
            proof {
                assert(text@.subrange(copied as int, i as int) =~= Seq::<char>::empty());
            }
        } else {
            proof {
                if pattern@.is_prefix_of(rest) {
                    assert(rest.subrange(0, ps.len() as int) =~= text@.subrange(
                        i as int,
                        i + ps.len(),
                    ));
                }
                assert(rest.drop_first() =~= text@.skip(i + 1));
                assert(text@.subrange(copied as int, i as int) + seq![rest[0]]
                    =~= text@.subrange(copied as int, i + 1));
            }
            i += 1;
        }
    }
    proof {
        assert(text@.skip(n as int) =~= Seq::<char>::empty());
    }
    out.append(text.substring_char(copied, n));
    out
}

/// The pieces of `s` between occurrences of `sep`.
pub fn split(s: &str, sep: char) -> (parts: Vec<String>)
    ensures
        parts.deep_view() == split_on(s@, sep),
{
    let cs = chars_of(s);
    let n = cs.len();
    let mut parts: Vec<String> = Vec::new();
    let mut start: usize = 0;
    let mut i: usize = 0;
    proof {
        assert(s@.take(0) =~= Seq::<char>::empty());
        assert(parts.deep_view().push(s@.subrange(0, 0)) =~= seq![Seq::<char>::empty()]);
    }
    while i < n
        invariant
            start <= i <= n,
            n == cs.len(),
            cs@ == s@,
            split_on(s@.take(i as int), sep) == parts.deep_view().push(
                s@.subrange(start as int, i as int),
            ),
        decreases n - i,
    {
        let ghost done = parts.deep_view();
        let ghost upto = s@.take(i + 1);
        proof {
            assert(upto.drop_last() =~= s@.take(i as int));
            assert(upto.last() == s@[i as int]);
        }
        if cs[i] == sep {
            parts.push(String::from_str(s.substring_char(start, i)));
            proof {
                assert(parts.deep_view() =~= done.push(s@.subrange(start as int, i as int)));
                assert(s@.subrange(i + 1, i + 1) =~= Seq::<char>::empty());
            }
            start = i + 1;
        } else {
            proof {
                let open = s@.subrange(start as int, i as int);
                assert(done.push(open).drop_last() =~= done);
                assert(open.push(s@[i as int]) =~= s@.subrange(start as int, i + 1));
            }
        }
        i += 1;
    }
    let ghost done = parts.deep_view();
    parts.push(String::from_str(s.substring_char(start, n)));
    proof {
        assert(s@.take(n as int) =~= s@);
        assert(parts.deep_view() =~= done.push(s@.subrange(start as int, n as int)));
    }
    parts
}

fn digit_text(d: usize) -> (s: &'static str)
    requires
        d < 10,
    ensures
        s@ == seq![digit_char(d as nat)],
{
    proof {
        reveal_strlit("0");
        reveal_strlit("1");
        reveal_strlit("2");
        reveal_strlit("3");
        reveal_strlit("4");
        reveal_strlit("5");
        reveal_strlit("6");
        reveal_strlit("7");
        reveal_strlit("8");
        reveal_strlit("9");
    }
    let s = if d == 0 {
        "0"
    } else if d == 1 {
        "1"
    } else if d == 2 {
        "2"
    } else if d == 3 {
        "3"
    } else if d == 4 {
        "4"
    } else if d == 5 {
        "5"
    } else if d == 6 {
        "6"
    } else if d == 7 {
        "7"
    } else if d == 8 {
        "8"
    } else {
        "9"
    };
    assert(s@ =~= seq![digit_char(d as nat)]);
    s
}

/// `n` in decimal notation.
pub fn to_decimal(n: usize) -> (r: String)
    ensures
        r@ == decimal(n as nat),
    decreases n,
{
    if n < 10 {
        String::from_str(digit_text(n))
    } else {
        let mut head = to_decimal(n / 10);
        head.append(digit_text(n % 10));
        assert(head@ =~= decimal((n / 10) as nat).push(digit_char((n % 10) as nat)));
        head
    }
}

/// A copy of every string of `v`, in order.
pub fn clone_strings(v: &Vec<String>) -> (r: Vec<String>)
    ensures
        r.deep_view() == v.deep_view(),
{
    let mut r: Vec<String> = Vec::new();
    let mut i: usize = 0;
    while i < v.len()
        invariant
            i <= v.len(),
            r.len() == i,
            forall|k: int| 0 <= k < i ==> r@[k]@ == v@[k]@,
        decreases v.len() - i,
    {
        r.push(v[i].clone());
        i += 1;
    }
    assert(r.deep_view() =~= v.deep_view());
    r
}

/// Whether `a` comes before `b`, or is `b`, in the order of a dictionary whose
/// letters are ordered by their code points.
pub open spec fn text_le(a: Seq<char>, b: Seq<char>) -> bool
    decreases a.len(),
{
    if a.len() == 0 {
        true
    } else if b.len() == 0 {
        false
    } else if a[0] != b[0] {
        a[0] < b[0]
    } else {
        text_le(a.drop_first(), b.drop_first())
    }
}

/// Of two texts, one comes before the other or they are the same.
pub proof fn lemma_text_le_total(a: Seq<char>, b: Seq<char>)
    ensures
        text_le(a, b) || text_le(b, a),
        text_le(a, b) && text_le(b, a) ==> a == b,
    decreases a.len(),
{
    if a.len() > 0 && b.len() > 0 && a[0] == b[0] {
        lemma_text_le_total(a.drop_first(), b.drop_first());
        if text_le(a, b) && text_le(b, a) {
            assert(a =~= seq![a[0]] + a.drop_first());
            assert(b =~= seq![b[0]] + b.drop_first());
        }
    } else if a.len() == 0 && b.len() == 0 {
        assert(a =~= b);
    }
}

/// The order of texts is transitive.
pub proof fn lemma_text_le_transitive(a: Seq<char>, b: Seq<char>, c: Seq<char>)
    requires
        text_le(a, b),
        text_le(b, c),
    ensures
        text_le(a, c),
    decreases a.len(),
{
    if a.len() > 0 && b.len() > 0 && c.len() > 0 && a[0] == b[0] && b[0] == c[0] {
        lemma_text_le_transitive(a.drop_first(), b.drop_first(), c.drop_first());
    }
}

/// Whether `a` comes before `b`, or is `b`, in the order of texts.
pub fn text_le_exec(a: &str, b: &str) -> (r: bool)
    ensures
        r == text_le(a@, b@),
{
    let x = chars_of(a);
    let y = chars_of(b);
    let mut i: usize = 0;
    proof {
        assert(a@.skip(0) =~= a@);
        assert(b@.skip(0) =~= b@);
    }
    while i < x.len() && i < y.len()
        invariant
            i <= x.len(),
            i <= y.len(),
            x@ == a@,
            y@ == b@,
            text_le(a@, b@) == text_le(a@.skip(i as int), b@.skip(i as int)),
        decreases x.len() - i,
    {
        proof {
            assert(a@.skip(i as int).drop_first() =~= a@.skip(i + 1));
            assert(b@.skip(i as int).drop_first() =~= b@.skip(i + 1));
        }
        if x[i] != y[i] {
            return x[i] < y[i];
        }
        i += 1;
    }
    i == x.len()
}

} // verus!

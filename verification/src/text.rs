//! Character-level text utilities shared by the output parsers: splitting a
//! raw dump into lines, locating fixed patterns, trimming whitespace and
//! reading decimal digit runs.

use vstd::prelude::*;
use vstd::string::StrSliceExecFns;
use vstd::string::StringExecFns;

verus! {

/// The whitespace characters removed by trimming.
pub open spec fn is_space_char(c: char) -> bool {
    c == ' ' || c == '\t' || c == '\n' || c == '\r' || c == '\u{b}' || c == '\u{c}'
}

pub open spec fn is_digit_char(c: char) -> bool {
    '0' as u32 <= c as u32 && c as u32 <= '9' as u32
}

pub open spec fn digit_val(c: char) -> nat {
    (c as u32 - '0' as u32) as nat
}

/// Index of the first occurrence of `c` in `s`, or `s.len()` when absent.
pub open spec fn first_index_of(s: Seq<char>, c: char) -> int
    decreases s.len(),
{
    if s.len() == 0 {
        0
    } else if s[0] == c {
        0
    } else {
        1 + first_index_of(s.drop_first(), c)
    }
}

pub proof fn lemma_first_index_of_from_scan(s: Seq<char>, c: char, i: int)
    requires
        0 <= i <= s.len(),
        forall|j: int| 0 <= j < i ==> s[j] != c,
        i < s.len() ==> s[i] == c,
    ensures
        first_index_of(s, c) == i,
    decreases i,
{
    if s.len() == 0 {
    } else if s[0] == c {
    } else {
        assert(i >= 1);
        let t = s.drop_first();
        assert(forall|j: int| 0 <= j < i - 1 ==> t[j] == s[j + 1] && t[j] != c);
        lemma_first_index_of_from_scan(t, c, i - 1);
    }
}

/// A line with any single trailing carriage return removed.
pub open spec fn strip_cr(s: Seq<char>) -> Seq<char> {
    if s.len() > 0 && s.last() == '\r' {
        s.drop_last()
    } else {
        s
    }
}

/// The lines of `s`: segments between newline characters, each with a
/// trailing carriage return removed, and no empty segment after a final
/// newline.
pub open spec fn spec_lines(s: Seq<char>) -> Seq<Seq<char>>
    decreases s.len(),
{
    if s.len() == 0 {
        Seq::empty()
    } else {
        let i = first_index_of(s, '\n');
        if 0 <= i < s.len() {
            seq![strip_cr(s.take(i))] + spec_lines(s.skip(i + 1))
        } else {
            seq![strip_cr(s)]
        }
    }
}

/// The element at `i`, or the empty sequence when `i` is out of range.
pub open spec fn seq_at_or_empty(parts: Seq<Seq<char>>, i: int) -> Seq<char> {
    if 0 <= i < parts.len() {
        parts[i]
    } else {
        Seq::empty()
    }
}

/// Splits `s` at newline characters, the way the parsers read raw process
/// output: no trailing empty line, carriage returns stripped.
pub fn split_lines(s: &str) -> (r: Vec<String>)
    ensures
        r.deep_view() == spec_lines(s@),
{
    let n = s.unicode_len();
    let mut r: Vec<String> = Vec::new();
    let mut pos: usize = 0;
    proof {
        assert(s@.skip(0) =~= s@);
        assert(r.deep_view() =~~= Seq::<Seq<char>>::empty());
        assert(spec_lines(s@) =~~= r.deep_view() + spec_lines(s@.skip(pos as int)));
    }
    while pos < n
        invariant
            n == s@.len(),
            pos <= n,
            spec_lines(s@) == r.deep_view() + spec_lines(s@.skip(pos as int)),
        decreases n - pos,
    {
        let ghost p = pos as int;
        let ghost tail = s@.skip(p);
        let ghost dv0 = r.deep_view();
        let mut i = pos;
        while i < n && s.get_char(i) != '\n'
            invariant
                n == s@.len(),
                pos <= i <= n,
                forall|j: int| pos <= j < i ==> s@[j] != '\n',
            decreases n - i,
        {
            i += 1;
        }
        proof {
            assert(forall|j: int| 0 <= j < i - p ==> tail[j] == s@[p + j] && tail[j] != '\n');
            if i < n {
                assert(tail[i - p] == s@[i as int]);
            }
            lemma_first_index_of_from_scan(tail, '\n', i - p);
        }
        let mut end = i;
        if end > pos && s.get_char(end - 1) == '\r' {
            end -= 1;
        }
        let line = String::from_str(s.substring_char(pos, end));
        proof {
            let seg = if i < n {
                tail.take(i - p)
            } else {
                tail
            };
            assert(seg =~= s@.subrange(p, i as int));
            assert(strip_cr(seg) =~= s@.subrange(p, end as int));
            assert(line@ == strip_cr(seg));
        }
        r.push(line);
        proof {
            assert(r.deep_view() =~~= dv0.push(line@));
        }
        if i < n {
            pos = i + 1;
            proof {
                assert(tail.skip(i - p + 1) =~= s@.skip(pos as int));
                assert(spec_lines(tail) == seq![line@] + spec_lines(s@.skip(pos as int)));
                assert(spec_lines(s@) =~~= r.deep_view() + spec_lines(s@.skip(pos as int)));
            }
        } else {
            pos = n;
            proof {
                assert(s@.skip(n as int) =~= Seq::<char>::empty());
                assert(spec_lines(s@.skip(n as int)) =~~= Seq::<Seq<char>>::empty());
                assert(spec_lines(tail) == seq![line@]);
                assert(spec_lines(s@) =~~= r.deep_view() + spec_lines(s@.skip(pos as int)));
            }
        }
    }
    proof {
        assert(s@.skip(n as int) =~= Seq::<char>::empty());
        assert(spec_lines(s@) =~~= r.deep_view());
    }
    r
}

/// `pat` occurs in `s` starting at index `i`.
pub open spec fn match_at(s: Seq<char>, pat: Seq<char>, i: int) -> bool {
    0 <= i && i + pat.len() <= s.len() && s.subrange(i, i + pat.len()) == pat
}

pub open spec fn contains_pat(s: Seq<char>, pat: Seq<char>) -> bool {
    exists|i: int| match_at(s, pat, i)
}

pub proof fn lemma_match_at_skip(s: Seq<char>, pat: Seq<char>, p: int, j: int)
    requires
        0 <= p <= s.len(),
        0 <= j,
    ensures
        match_at(s.skip(p), pat, j) == match_at(s, pat, p + j),
{
    let t = s.skip(p);
    if p + j + pat.len() <= s.len() {
        assert(t.subrange(j, j + pat.len()) =~= s.subrange(p + j, p + j + pat.len()));
    }
}

pub fn is_match_at(s: &str, pat: &str, i: usize) -> (b: bool)
    ensures
        b == match_at(s@, pat@, i as int),
{
    let n = s.unicode_len();
    let m = pat.unicode_len();
    if m > n || i > n - m {
        proof {
            assert(i + pat@.len() > s@.len());
        }
        return false;
    }
    let mut j: usize = 0;
    while j < m
        invariant
            n == s@.len(),
            m == pat@.len(),
            m <= n,
            i <= n - m,
            j <= m,
            forall|k: int| 0 <= k < j ==> s@[i + k] == pat@[k],
        decreases m - j,
    {
        if s.get_char(i + j) != pat.get_char(j) {
            proof {
                assert(s@.subrange(i as int, i + pat@.len())[j as int] != pat@[j as int]);
            }
            return false;
        }
        j += 1;
    }
    proof {
        assert(s@.subrange(i as int, i + pat@.len()) =~= pat@);
    }
    true
}

pub fn contains_str(s: &str, pat: &str) -> (b: bool)
    ensures
        b == contains_pat(s@, pat@),
{
    let n = s.unicode_len();
    let m = pat.unicode_len();
    if m > n {
        proof {
            assert(forall|i: int| !match_at(s@, pat@, i));
        }
        return false;
    }
    if m == 0 {
        proof {
            assert(s@.subrange(0, 0) =~= pat@);
            assert(match_at(s@, pat@, 0));
        }
        return true;
    }
    let mut i: usize = 0;
    while i <= n - m
        invariant
            n == s@.len(),
            m == pat@.len(),
            0 < m <= n,
            i <= n - m + 1,
            forall|j: int| 0 <= j < i ==> !match_at(s@, pat@, j),
        decreases n - i,
    {
        if is_match_at(s, pat, i) {
            proof {
                assert(contains_pat(s@, pat@));
            }
            return true;
        }
        i += 1;
    }
    proof {
        assert forall|j: int| !match_at(s@, pat@, j) by {
            if 0 <= j < i {
            } else if j > n - m {
                assert(j + pat@.len() > s@.len());
            }
        }
    }
    false
}

/// Index of the leftmost occurrence of `pat` in `s`, or -1 when there is
/// none (or `pat` is empty).
pub open spec fn first_match(s: Seq<char>, pat: Seq<char>) -> int
    decreases s.len(),
{
    if pat.len() == 0 || s.len() < pat.len() {
        -1
    } else if s.subrange(0, pat.len() as int) == pat {
        0
    } else {
        let r = first_match(s.drop_first(), pat);
        if r == -1 {
            -1
        } else {
            1 + r
        }
    }
}

pub proof fn lemma_first_match_from_scan(s: Seq<char>, pat: Seq<char>, i: int)
    requires
        pat.len() > 0,
        0 <= i,
        forall|j: int| 0 <= j < i ==> !match_at(s, pat, j),
        match_at(s, pat, i) || i + pat.len() > s.len(),
    ensures
        match_at(s, pat, i) ==> first_match(s, pat) == i,
        !match_at(s, pat, i) ==> first_match(s, pat) == -1,
    decreases i,
{
    if s.len() < pat.len() {
        assert(!match_at(s, pat, i));
    } else if i == 0 {
        if match_at(s, pat, 0) {
        }
    } else {
        assert(!match_at(s, pat, 0));
        assert(s.subrange(0, pat.len() as int) != pat);
        let t = s.drop_first();
        assert forall|j: int| 0 <= j < i - 1 implies !match_at(t, pat, j) by {
            lemma_match_at_skip(s, pat, 1, j);
        }
        lemma_match_at_skip(s, pat, 1, i - 1);
        lemma_first_match_from_scan(t, pat, i - 1);
    }
}

/// The segments of `s` between occurrences of `pat`, leftmost first; a
/// sequence of one segment when `pat` does not occur.
pub open spec fn spec_split(s: Seq<char>, pat: Seq<char>) -> Seq<Seq<char>>
    decreases s.len(),
{
    let i = first_match(s, pat);
    if 0 <= i && i + pat.len() <= s.len() && pat.len() > 0 {
        seq![s.take(i)] + spec_split(s.skip(i + pat.len()), pat)
    } else {
        seq![s]
    }
}

pub fn split_on(s: &str, pat: &str) -> (r: Vec<String>)
    requires
        pat@.len() > 0,
    ensures
        r.deep_view() == spec_split(s@, pat@),
{
    let n = s.unicode_len();
    let m = pat.unicode_len();
    let mut r: Vec<String> = Vec::new();
    let mut pos: usize = 0;
    let mut done = false;
    proof {
        assert(s@.skip(0) =~= s@);
        assert(r.deep_view() =~~= Seq::<Seq<char>>::empty());
        assert(spec_split(s@, pat@) =~~= r.deep_view() + spec_split(s@.skip(pos as int), pat@));
    }
    while !done
        invariant
            n == s@.len(),
            m == pat@.len(),
            m > 0,
            pos <= n,
            !done ==> spec_split(s@, pat@) == r.deep_view() + spec_split(
                s@.skip(pos as int),
                pat@,
            ),
            done ==> spec_split(s@, pat@) == r.deep_view(),
        decreases n - pos, (if done {
            0int
        } else {
            1
        }),
    {
        let ghost p = pos as int;
        let ghost tail = s@.skip(p);
        let ghost dv0 = r.deep_view();
        let mut i = pos;
        let mut found = false;
        while !found && m <= n && i <= n - m
            invariant
                n == s@.len(),
                m == pat@.len(),
                m > 0,
                pos <= i <= n,
                forall|j: int| pos <= j < i ==> !match_at(s@, pat@, j),
                found ==> match_at(s@, pat@, i as int) && i + m <= n,
            decreases n - i, (if found {
                0int
            } else {
                1
            }),
        {
            if is_match_at(s, pat, i) {
                found = true;
            } else {
                i += 1;
            }
        }
        proof {
            assert forall|j: int| 0 <= j < i - p implies !match_at(tail, pat@, j) by {
                lemma_match_at_skip(s@, pat@, p, j);
            }
            lemma_match_at_skip(s@, pat@, p, i - p);
            if !found {
                assert(i + m > n);
                assert((i - p) + pat@.len() > tail.len());
            }
            lemma_first_match_from_scan(tail, pat@, i - p);
        }
        if found {
            let seg = String::from_str(s.substring_char(pos, i));
            proof {
                assert(tail.take(i - p) =~= s@.subrange(p, i as int));
                assert(seg@ == tail.take(i - p));
            }
            r.push(seg);
            pos = i + m;
            proof {
                assert(r.deep_view() =~~= dv0.push(seg@));
                assert(tail.skip(i - p + m) =~= s@.skip(pos as int));
                assert(spec_split(tail, pat@) == seq![seg@] + spec_split(
                    s@.skip(pos as int),
                    pat@,
                ));
                assert(spec_split(s@, pat@) =~~= r.deep_view() + spec_split(
                    s@.skip(pos as int),
                    pat@,
                ));
            }
        } else {
            let seg = String::from_str(s.substring_char(pos, n));
            proof {
                assert(tail =~= s@.subrange(p, n as int));
                assert(seg@ == tail);
                assert(spec_split(tail, pat@) == seq![tail]);
            }
            r.push(seg);
            done = true;
            proof {
                assert(r.deep_view() =~~= dv0.push(seg@));
                assert(spec_split(s@, pat@) =~~= r.deep_view());
            }
        }
    }
    r
}

/// Count of whitespace characters at the front of `s`.
pub open spec fn leading_ws(s: Seq<char>) -> int
    decreases s.len(),
{
    if s.len() == 0 {
        0
    } else if !is_space_char(s[0]) {
        0
    } else {
        1 + leading_ws(s.drop_first())
    }
}

/// Count of whitespace characters at the back of `s`.
pub open spec fn trailing_ws(s: Seq<char>) -> int
    decreases s.len(),
{
    if s.len() == 0 {
        0
    } else if !is_space_char(s.last()) {
        0
    } else {
        1 + trailing_ws(s.drop_last())
    }
}

/// `s` with whitespace removed from both ends.
pub open spec fn spec_trim(s: Seq<char>) -> Seq<char> {
    let a = leading_ws(s);
    let b = trailing_ws(s);
    if a == s.len() {
        Seq::empty()
    } else {
        s.subrange(a, s.len() - b)
    }
}

pub proof fn lemma_leading_ws_from_scan(s: Seq<char>, i: int)
    requires
        0 <= i <= s.len(),
        forall|j: int| 0 <= j < i ==> is_space_char(s[j]),
        i < s.len() ==> !is_space_char(s[i]),
    ensures
        leading_ws(s) == i,
    decreases i,
{
    if s.len() == 0 {
    } else if !is_space_char(s[0]) {
    } else {
        assert(i >= 1);
        let t = s.drop_first();
        assert(forall|j: int| 0 <= j < i - 1 ==> t[j] == s[j + 1] && is_space_char(t[j]));
        lemma_leading_ws_from_scan(t, i - 1);
    }
}

pub proof fn lemma_trailing_ws_from_scan(s: Seq<char>, t: int)
    requires
        0 <= t <= s.len(),
        forall|j: int| s.len() - t <= j < s.len() ==> is_space_char(s[j]),
        t < s.len() ==> !is_space_char(s[s.len() - t - 1]),
    ensures
        trailing_ws(s) == t,
    decreases t,
{
    if s.len() == 0 {
    } else if !is_space_char(s.last()) {
        assert(t == 0);
    } else {
        assert(t >= 1);
        let u = s.drop_last();
        assert(forall|j: int| u.len() - (t - 1) <= j < u.len() ==> u[j] == s[j] && is_space_char(
            u[j],
        ));
        lemma_trailing_ws_from_scan(u, t - 1);
    }
}

pub(crate) fn is_digit(c: char) -> (b: bool)
    ensures
        b == is_digit_char(c),
{
    let u = c as u32;
    '0' as u32 <= u && u <= '9' as u32
}

fn is_space(c: char) -> (b: bool)
    ensures
        b == is_space_char(c),
{
    c == ' ' || c == '\t' || c == '\n' || c == '\r' || c == '\u{b}' || c == '\u{c}'
}

pub fn trim_str(s: &str) -> (r: String)
    ensures
        r@ == spec_trim(s@),
{
    let n = s.unicode_len();
    let mut a: usize = 0;
    while a < n && is_space(s.get_char(a))
        invariant
            n == s@.len(),
            a <= n,
            forall|j: int| 0 <= j < a ==> is_space_char(s@[j]),
        decreases n - a,
    {
        a += 1;
    }
    proof {
        lemma_leading_ws_from_scan(s@, a as int);
    }
    if a == n {
        let r = String::new();
        proof {
            assert(r@ =~= spec_trim(s@));
        }
        r
    } else {
        let mut b: usize = 0;
        while is_space(s.get_char(n - 1 - b))
            invariant
                n == s@.len(),
                a < n,
                !is_space_char(s@[a as int]),
                b <= n - 1 - a,
                forall|j: int| n - b <= j < n ==> is_space_char(s@[j]),
            decreases n - b,
        {
            b += 1;
        }
        proof {
            lemma_trailing_ws_from_scan(s@, b as int);
        }
        String::from_str(s.substring_char(a, n - b))
    }
}

/// Count of decimal digits at the front of `s`.
pub open spec fn leading_digits(s: Seq<char>) -> int
    decreases s.len(),
{
    if s.len() == 0 {
        0
    } else if !is_digit_char(s[0]) {
        0
    } else {
        1 + leading_digits(s.drop_first())
    }
}

/// The number denoted by a sequence of decimal digits, most significant
/// first.
pub open spec fn digits_value(s: Seq<char>) -> nat
    decreases s.len(),
{
    if s.len() == 0 {
        0
    } else {
        digits_value(s.drop_last()) * 10 + digit_val(s.last())
    }
}

pub proof fn lemma_leading_digits_from_scan(s: Seq<char>, i: int)
    requires
        0 <= i <= s.len(),
        forall|j: int| 0 <= j < i ==> is_digit_char(s[j]),
        i < s.len() ==> !is_digit_char(s[i]),
    ensures
        leading_digits(s) == i,
    decreases i,
{
    if s.len() == 0 {
    } else if !is_digit_char(s[0]) {
    } else {
        assert(i >= 1);
        let t = s.drop_first();
        assert(forall|j: int| 0 <= j < i - 1 ==> t[j] == s[j + 1] && is_digit_char(t[j]));
        lemma_leading_digits_from_scan(t, i - 1);
    }
}

/// End (exclusive) of the digit run that starts at `from`.
pub fn digit_run_end(s: &str, from: usize) -> (e: usize)
    requires
        from <= s@.len(),
    ensures
        from <= e <= s@.len(),
        e - from == leading_digits(s@.skip(from as int)),
        forall|j: int| from <= j < e ==> is_digit_char(s@[j]),
{
    let n = s.unicode_len();
    let mut e = from;
    while e < n && is_digit(s.get_char(e))
        invariant
            n == s@.len(),
            from <= e <= n,
            forall|j: int| from <= j < e ==> is_digit_char(s@[j]),
        decreases n - e,
    {
        e += 1;
    }
    proof {
        let t = s@.skip(from as int);
        assert(forall|j: int| 0 <= j < e - from ==> t[j] == s@[from + j] && is_digit_char(t[j]));
        if e < n {
            assert(t[e - from] == s@[e as int]);
        }
        lemma_leading_digits_from_scan(t, e - from);
    }
    e
}

/// Reads the digits `s[from .. to]` as a number, reporting `None` when it
/// does not fit the counter width.
pub fn digits_to_u16(s: &str, from: usize, to: usize) -> (r: Option<u16>)
    requires
        from <= to <= s@.len(),
        forall|j: int| from <= j < to ==> is_digit_char(s@[j]),
    ensures
        r matches Some(x) ==> x == digits_value(s@.subrange(from as int, to as int)),
        r is Some <==> digits_value(s@.subrange(from as int, to as int)) <= u16::MAX,
{
    let mut v: u64 = 0;
    let mut k = from;
    proof {
        assert(s@.subrange(from as int, from as int) =~= Seq::<char>::empty());
    }
    while k < to
        invariant
            from <= k <= to <= s@.len(),
            forall|j: int| from <= j < to ==> is_digit_char(s@[j]),
            v <= 655359,
            v <= u16::MAX ==> v == digits_value(s@.subrange(from as int, k as int)),
            v > u16::MAX ==> digits_value(s@.subrange(from as int, k as int)) > u16::MAX,
        decreases to - k,
    {
        let c = s.get_char(k);
        let ghost pre = s@.subrange(from as int, k as int);
        let ghost post = s@.subrange(from as int, k + 1);
        proof {
            assert(post.drop_last() =~= pre);
            assert(post.last() == s@[k as int]);
            assert(digits_value(post) == digits_value(pre) * 10 + digit_val(s@[k as int]));
        }
        let d = (c as u32 - '0' as u32) as u64;
        proof {
            assert(d == digit_val(s@[k as int]));
            assert(d <= 9);
        }
        if v <= 65535 {
            v = v * 10 + d;
        } else {
            proof {
                assert(digits_value(post) >= digits_value(pre) * 10);
            }
        }
        k += 1;
    }
    if v <= 65535 {
        Some(v as u16)
    } else {
        None
    }
}

} // verus!

//! Character-level text handling: whitespace, word splitting, trimming,
//! string comparison and decimal integer parsing.
use vstd::prelude::*;

verus! {

/// The characters with the Unicode `White_Space` property, the set that
/// `char::is_whitespace` tests for.
pub open spec fn is_ws(c: char) -> bool {
    let u = c as u32;
    ||| 0x09 <= u <= 0x0d
    ||| u == 0x20
    ||| u == 0x85
    ||| u == 0xa0
    ||| u == 0x1680
    ||| 0x2000 <= u <= 0x200a
    ||| u == 0x2028
    ||| u == 0x2029
    ||| u == 0x202f
    ||| u == 0x205f
    ||| u == 0x3000
}

/// Whether `c` is a Unicode whitespace character.
pub fn is_whitespace(c: char) -> (r: bool)
    ensures
        r == is_ws(c),
{
    let u = c as u32;
    (0x09 <= u && u <= 0x0d) || u == 0x20 || u == 0x85 || u == 0xa0 || u == 0x1680 || (0x2000
        <= u && u <= 0x200a) || u == 0x2028 || u == 0x2029 || u == 0x202f || u == 0x205f || u
        == 0x3000
}

/// Whether two strings hold the same characters.
pub fn str_eq(a: &str, b: &str) -> (r: bool)
    ensures
        r == (a@ == b@),
{
    let x = a.to_owned();
    let y = b.to_owned();
    x == y
}

/// The words of `s`: its maximal runs of non-whitespace characters, in order.
/// Defined character by character: whitespace ends the current word, and a
/// non-whitespace character either extends the word just before it or starts a new one.
pub open spec fn split_ws(s: Seq<char>) -> Seq<Seq<char>>
    decreases s.len(),
{
    if s.len() == 0 {
        seq![]
    } else {
        let p = s.drop_last();
        let c = s.last();
        let r = split_ws(p);
        if is_ws(c) {
            r
        } else if p.len() > 0 && !is_ws(p.last()) {
            r.update(r.len() - 1, r.last().push(c))
        } else {
            r.push(seq![c])
        }
    }
}

/// The character sequences of a list of strings.
pub open spec fn views(v: Seq<String>) -> Seq<Seq<char>> {
    v.map_values(|w: String| w@)
}

/// A string that ends in a non-whitespace character has at least one word.
proof fn lemma_split_ws_nonempty(s: Seq<char>)
    requires
        s.len() > 0,
        !is_ws(s.last()),
    ensures
        split_ws(s).len() > 0,
    decreases s.len(),
{
    let p = s.drop_last();
    if p.len() > 0 && !is_ws(p.last()) {
        lemma_split_ws_nonempty(p);
    }
}

/// The characters of a list of words, one word after the other.
pub open spec fn concat_words(w: Seq<Seq<char>>) -> Seq<char>
    decreases w.len(),
{
    if w.len() == 0 {
        seq![]
    } else {
        concat_words(w.drop_last()) + w.last()
    }
}

/// The words, one after the other, are exactly the non-whitespace characters
/// of the string, in order: splitting drops whitespace and nothing else.
pub proof fn law_split_keeps_every_other_character(s: Seq<char>)
    ensures
        concat_words(split_ws(s)) == s.filter(|c: char| !is_ws(c)),
    decreases s.len(),
{
    reveal_with_fuel(Seq::<_>::filter, 1);
    if s.len() > 0 {
        let p = s.drop_last();
        let c = s.last();
        let r = split_ws(p);
        law_split_keeps_every_other_character(p);
        if !is_ws(c) {
            if p.len() > 0 && !is_ws(p.last()) {
                lemma_split_ws_nonempty(p);
                let u = r.update(r.len() - 1, r.last().push(c));
                assert(u.drop_last() =~= r.drop_last());
                assert(concat_words(u) =~= concat_words(r).push(c));
            } else {
                let u = r.push(seq![c]);
                assert(u.drop_last() =~= r);
                assert(concat_words(u) =~= concat_words(r).push(c));
            }
        }
    }
}

/// `w` are the words of `s` found at the positions `a[i]..b[i]`, each run
/// bounded by whitespace or by an end of `s`, in increasing order.
pub open spec fn word_bounds(s: Seq<char>, w: Seq<Seq<char>>, a: Seq<int>, b: Seq<int>) -> bool {
    &&& a.len() == w.len()
    &&& b.len() == w.len()
    &&& forall|i: int|
        0 <= i < w.len() ==> {
            &&& 0 <= #[trigger] a[i] < b[i] <= s.len()
            &&& w[i] == s.subrange(a[i], b[i])
            &&& (a[i] == 0 || is_ws(s[a[i] - 1]))
            &&& (b[i] == s.len() || is_ws(s[b[i]]))
        }
    &&& forall|i: int| 0 <= i < w.len() - 1 ==> #[trigger] b[i] < a[i + 1]
}

proof fn lemma_word_bounds(s: Seq<char>) -> (r: (Seq<int>, Seq<int>))
    ensures
        word_bounds(s, split_ws(s), r.0, r.1),
        s.len() > 0 && !is_ws(s.last()) ==> split_ws(s).len() > 0 && r.1.last() == s.len(),
    decreases s.len(),
{
    if s.len() == 0 {
        (seq![], seq![])
    } else {
        let n = s.len();
        let p = s.drop_last();
        let c = s.last();
        let w0 = split_ws(p);
        let (a0, b0) = lemma_word_bounds(p);
        law_split_words_are_words(p);
        let w = split_ws(s);
        if is_ws(c) {
            assert forall|i: int| 0 <= i < w.len() implies {
                &&& 0 <= #[trigger] a0[i] < b0[i] <= s.len()
                &&& w[i] == s.subrange(a0[i], b0[i])
                &&& (a0[i] == 0 || is_ws(s[a0[i] - 1]))
                &&& (b0[i] == s.len() || is_ws(s[b0[i]]))
            } by {
                assert(s.subrange(a0[i], b0[i]) =~= p.subrange(a0[i], b0[i]));
            }
            (a0, b0)
        } else if p.len() > 0 && !is_ws(p.last()) {
            let last = w0.len() - 1;
            let b = b0.update(last, n as int);
            assert forall|i: int| 0 <= i < last implies #[trigger] b0[i] < n - 1 by {
                if i < last - 1 {
                    assert(b0[i] < a0[i + 1]);
                    assert(b0[i + 1] <= n - 1);
                }
                assert(b0[i] < a0[i + 1]);
                assert(a0[i + 1] < b0[i + 1]);
            }
            assert forall|i: int| 0 <= i < w.len() implies {
                &&& 0 <= #[trigger] a0[i] < b[i] <= s.len()
                &&& w[i] == s.subrange(a0[i], b[i])
                &&& (a0[i] == 0 || is_ws(s[a0[i] - 1]))
                &&& (b[i] == s.len() || is_ws(s[b[i]]))
            } by {
                if i < last {
                    assert(s.subrange(a0[i], b0[i]) =~= p.subrange(a0[i], b0[i]));
                    assert(s[b0[i]] == p[b0[i]]);
                } else {
                    assert(w[i] == w0[i].push(c));
                    assert(s.subrange(a0[i], n as int) =~= p.subrange(a0[i], b0[i]).push(c));
                }
                if a0[i] > 0 {
                    assert(s[a0[i] - 1] == p[a0[i] - 1]);
                }
            }
            assert forall|i: int| 0 <= i < w.len() - 1 implies #[trigger] b[i] < a0[i + 1] by {
                assert(b0[i] < a0[i + 1]);
            }
            (a0, b)
        } else {
            let a = a0.push(n - 1);
            let b = b0.push(n as int);
            assert forall|i: int| 0 <= i < w0.len() implies #[trigger] b0[i] < n - 1 by {
                assert(0 <= a0[i] < b0[i] <= p.len());
                if b0[i] == n - 1 {
                    let wi = w0[i];
                    assert(wi == p.subrange(a0[i], b0[i]));
                    assert(wi[wi.len() - 1] == p[n - 2]);
                    assert(is_word(wi));
                    assert(!is_ws(wi[wi.len() - 1]));
                }
            }
            assert forall|i: int| 0 <= i < w.len() implies {
                &&& 0 <= #[trigger] a[i] < b[i] <= s.len()
                &&& w[i] == s.subrange(a[i], b[i])
                &&& (a[i] == 0 || is_ws(s[a[i] - 1]))
                &&& (b[i] == s.len() || is_ws(s[b[i]]))
            } by {
                if i < w0.len() {
                    assert(a[i] == a0[i] && b[i] == b0[i]);
                    assert(s.subrange(a0[i], b0[i]) =~= p.subrange(a0[i], b0[i]));
                    assert(s[b0[i]] == p[b0[i]]);
                    if a0[i] > 0 {
                        assert(s[a0[i] - 1] == p[a0[i] - 1]);
                    }
                } else {
                    assert(s.subrange(n - 1, n as int) =~= seq![c]);
                }
            }
            assert forall|i: int| 0 <= i < w.len() - 1 implies #[trigger] b[i] < a[i + 1] by {
                if i < w0.len() - 1 {
                    assert(b0[i] < a0[i + 1]);
                }
            }
            (a, b)
        }
    }
}

/// Each word is a run of the string that whitespace (or an end of the string)
/// bounds on both sides, and the words come in the order of the string: no
/// word joins characters that whitespace separates.
pub proof fn law_words_are_maximal_runs(s: Seq<char>)
    ensures
        exists|a: Seq<int>, b: Seq<int>| word_bounds(s, split_ws(s), a, b),
{
    let (a, b) = lemma_word_bounds(s);
}

/// Splits `s` at whitespace, as `str::split_whitespace` does, and returns the words.
pub fn split_whitespace(s: &str) -> (r: Vec<String>)
    ensures
        views(r@) == split_ws(s@),
{
    let n = s.unicode_len();
    let mut words: Vec<String> = Vec::new();
    let mut i: usize = 0;
    let mut start: usize = 0;
    let mut open: bool = false;
    while i < n
        invariant
            n == s@.len(),
            i <= n,
            start <= i,
            open ==> start < i && !is_ws(s@[i - 1]),
            !open ==> (i == 0 || is_ws(s@[i - 1])),
            views(words@) + (if open {
                seq![s@.subrange(start as int, i as int)]
            } else {
                seq![]
            }) == split_ws(s@.take(i as int)),
        decreases n - i,
    {
        let c = s.get_char(i);
        let ghost prev = words@;
        assert(s@.take(i + 1).drop_last() =~= s@.take(i as int));
        assert(s@.take(i + 1).last() == c);
        if is_whitespace(c) {
            if open {
                let w = s.substring_char(start, i).to_owned();
                words.push(w);
                assert(views(words@) =~= views(prev).push(s@.subrange(start as int, i as int)));
                open = false;
            } else {
                assert(views(words@) + seq![] =~= views(words@));
            }
        } else {
            if !open {
                start = i;
                open = true;
                assert(s@.subrange(start as int, i + 1) =~= seq![c]);
                assert(views(words@) + seq![s@.subrange(start as int, i + 1)] =~= (views(words@)
                    + seq![]).push(seq![c]));
            } else {
                proof {
                    lemma_split_ws_nonempty(s@.take(i as int));
                }
                assert(s@.subrange(start as int, i + 1) =~= s@.subrange(start as int, i as int).push(
                    c,
                ));
                assert(views(words@) + seq![s@.subrange(start as int, i + 1)] =~= (views(words@)
                    + seq![s@.subrange(start as int, i as int)]).update(
                    views(words@).len() as int,
                    s@.subrange(start as int, i as int).push(c),
                ));
            }
        }
        i = i + 1;
    }
    assert(s@.take(n as int) =~= s@);
    if open {
        let ghost prev = words@;
        let w = s.substring_char(start, n).to_owned();
        words.push(w);
        assert(views(words@) =~= views(prev).push(s@.subrange(start as int, n as int)));
    } else {
        assert(views(words@) + seq![] =~= views(words@));
    }
    words
}

/// `w` is a word: it has at least one character and no whitespace.
pub open spec fn is_word(w: Seq<char>) -> bool {
    w.len() > 0 && forall|k: int| 0 <= k < w.len() ==> !is_ws(#[trigger] w[k])
}

/// Every word that splitting gives is non-empty and holds no whitespace.
pub proof fn law_split_words_are_words(s: Seq<char>)
    ensures
        forall|i: int| 0 <= i < split_ws(s).len() ==> is_word(#[trigger] split_ws(s)[i]),
    decreases s.len(),
{
    if s.len() > 0 {
        let p = s.drop_last();
        let c = s.last();
        let r = split_ws(p);
        law_split_words_are_words(p);
        if !is_ws(c) {
            if p.len() > 0 && !is_ws(p.last()) {
                lemma_split_ws_nonempty(p);
                let w = r.last().push(c);
                assert(is_word(r[r.len() - 1]));
                assert forall|k: int| 0 <= k < w.len() implies !is_ws(#[trigger] w[k]) by {
                    if k < w.len() - 1 {
                        assert(w[k] == r.last()[k]);
                    }
                }
                assert(is_word(w));
                assert forall|i: int| 0 <= i < split_ws(s).len() implies is_word(
                    #[trigger] split_ws(s)[i],
                ) by {
                    if i < r.len() - 1 {
                        assert(split_ws(s)[i] == r[i]);
                    }
                }
            } else {
                assert(is_word(seq![c]));
                assert forall|i: int| 0 <= i < split_ws(s).len() implies is_word(
                    #[trigger] split_ws(s)[i],
                ) by {
                    if i < r.len() {
                        assert(split_ws(s)[i] == r[i]);
                    }
                }
            }
        }
    }
}

/// `s` without its leading whitespace.
pub open spec fn trim_start(s: Seq<char>) -> Seq<char>
    decreases s.len(),
{
    if s.len() > 0 && is_ws(s[0]) {
        trim_start(s.drop_first())
    } else {
        s
    }
}

/// `s` without its trailing whitespace.
pub open spec fn trim_end(s: Seq<char>) -> Seq<char>
    decreases s.len(),
{
    if s.len() > 0 && is_ws(s.last()) {
        trim_end(s.drop_last())
    } else {
        s
    }
}

/// `s` without leading and trailing whitespace.
pub open spec fn trim_ws(s: Seq<char>) -> Seq<char> {
    trim_end(trim_start(s))
}

proof fn lemma_trim_start_shape(s: Seq<char>)
    ensures
        trim_start(s).len() == 0 || !is_ws(trim_start(s)[0]),
        trim_start(trim_start(s)) == trim_start(s),
    decreases s.len(),
{
    if s.len() > 0 && is_ws(s[0]) {
        lemma_trim_start_shape(s.drop_first());
    }
}

proof fn lemma_trim_end_shape(s: Seq<char>)
    ensures
        trim_end(s).len() <= s.len(),
        trim_end(s) == s.take(trim_end(s).len() as int),
        trim_end(s).len() == 0 || !is_ws(trim_end(s).last()),
        trim_end(trim_end(s)) == trim_end(s),
    decreases s.len(),
{
    if s.len() > 0 && is_ws(s.last()) {
        let p = s.drop_last();
        lemma_trim_end_shape(p);
        assert(p.take(trim_end(p).len() as int) =~= s.take(trim_end(p).len() as int));
    } else {
        assert(s.take(s.len() as int) =~= s);
    }
}

/// Trimming twice is trimming once.
pub proof fn law_trim_idempotent(s: Seq<char>)
    ensures
        trim_ws(trim_ws(s)) == trim_ws(s),
{
    let t = trim_start(s);
    lemma_trim_start_shape(s);
    lemma_trim_end_shape(t);
    let u = trim_end(t);
    if u.len() > 0 {
        assert(u[0] == t[0]);
    }
    assert(trim_start(u) == u);
}

proof fn lemma_trim_start_suffix(s: Seq<char>) -> (k: int)
    ensures
        0 <= k <= s.len(),
        trim_start(s) == s.subrange(k, s.len() as int),
        forall|i: int| 0 <= i < k ==> is_ws(#[trigger] s[i]),
    decreases s.len(),
{
    if s.len() > 0 && is_ws(s[0]) {
        let t = s.drop_first();
        let k0 = lemma_trim_start_suffix(t);
        assert(t.subrange(k0, t.len() as int) =~= s.subrange(k0 + 1, s.len() as int));
        assert forall|i: int| 0 <= i < k0 + 1 implies is_ws(#[trigger] s[i]) by {
            if i > 0 {
                assert(s[i] == t[i - 1]);
            }
        }
        k0 + 1
    } else {
        assert(s.subrange(0, s.len() as int) =~= s);
        0
    }
}

proof fn lemma_trim_end_tail(s: Seq<char>)
    ensures
        forall|i: int| trim_end(s).len() <= i < s.len() ==> is_ws(#[trigger] s[i]),
    decreases s.len(),
{
    if s.len() > 0 && is_ws(s.last()) {
        let p = s.drop_last();
        lemma_trim_end_tail(p);
        lemma_trim_end_shape(p);
        assert forall|i: int| trim_end(s).len() <= i < s.len() implies is_ws(#[trigger] s[i]) by {
            if i < s.len() - 1 {
                assert(s[i] == p[i]);
            }
        }
    }
}

/// Trimming keeps the run of the string that starts at its first and ends at
/// its last non-whitespace character, and removes exactly the whitespace
/// around it.
pub proof fn law_trim_removes_outer_whitespace(s: Seq<char>)
    ensures
        exists|a: int, b: int|
            0 <= a <= b <= s.len() && trim_ws(s) == s.subrange(a, b) && (forall|i: int|
                0 <= i < a ==> is_ws(#[trigger] s[i])) && (forall|i: int|
                b <= i < s.len() ==> is_ws(#[trigger] s[i])) && (a < b ==> !is_ws(s[a]) && !is_ws(
                s[b - 1],
            )),
{
    let k = lemma_trim_start_suffix(s);
    lemma_trim_start_shape(s);
    let t = trim_start(s);
    lemma_trim_end_shape(t);
    lemma_trim_end_tail(t);
    let m = trim_end(t).len() as int;
    let a = k;
    let b = k + m;
    assert(trim_ws(s) =~= s.subrange(a, b));
    assert forall|i: int| b <= i < s.len() implies is_ws(#[trigger] s[i]) by {
        assert(s[i] == t[i - k]);
    }
    if a < b {
        assert(s[a] == t[0]);
        assert(s[b - 1] == trim_end(t).last());
    }
}

/// Removes leading and trailing whitespace, as `str::trim` does.
pub fn trim(s: &str) -> (r: String)
    ensures
        r@ == trim_ws(s@),
{
    let n = s.unicode_len();
    let mut lo: usize = 0;
    assert(s@.subrange(0, n as int) =~= s@);
    while lo < n && is_whitespace(s.get_char(lo))
        invariant
            n == s@.len(),
            lo <= n,
            trim_start(s@) == trim_start(s@.subrange(lo as int, n as int)),
        decreases n - lo,
    {
        assert(s@.subrange(lo as int, n as int).drop_first() =~= s@.subrange(lo + 1, n as int));
        lo = lo + 1;
    }
    let mut hi: usize = n;
    while hi > lo && is_whitespace(s.get_char(hi - 1))
        invariant
            n == s@.len(),
            lo <= hi <= n,
            trim_start(s@) == s@.subrange(lo as int, n as int),
            trim_end(s@.subrange(lo as int, n as int)) == trim_end(
                s@.subrange(lo as int, hi as int),
            ),
        decreases hi - lo,
    {
        assert(s@.subrange(lo as int, hi as int).drop_last() =~= s@.subrange(
            lo as int,
            hi - 1,
        ));
        hi = hi - 1;
    }
    s.substring_char(lo, hi).to_owned()
}

/// Whether `c` is an ASCII decimal digit.
pub open spec fn is_digit(c: char) -> bool {
    '0' <= c <= '9'
}

/// The value of the decimal digit `c`.
pub open spec fn digit_value(c: char) -> int {
    (c as int) - ('0' as int)
}

/// Whether every character of `s` is a decimal digit.
pub open spec fn all_digits(s: Seq<char>) -> bool {
    forall|i: int| 0 <= i < s.len() ==> is_digit(#[trigger] s[i])
}

/// The number that the digit string `s` writes in base ten (`0` for the empty string).
pub open spec fn decimal_value(s: Seq<char>) -> int
    decreases s.len(),
{
    if s.len() == 0 {
        0
    } else {
        decimal_value(s.drop_last()) * 10 + digit_value(s.last())
    }
}

/// The integer that `s` writes: an optional `+` or `-` sign followed by one or
/// more decimal digits, and nothing else. `None` for any other string.
pub open spec fn spec_parse_decimal(s: Seq<char>) -> Option<int> {
    if s.len() > 0 && (s[0] == '-' || s[0] == '+') {
        let d = s.drop_first();
        if d.len() > 0 && all_digits(d) {
            Some(
                if s[0] == '-' {
                    -decimal_value(d)
                } else {
                    decimal_value(d)
                },
            )
        } else {
            None
        }
    } else if s.len() > 0 && all_digits(s) {
        Some(decimal_value(s))
    } else {
        None
    }
}

/// What `str::parse` gives for an integer type whose values are `lo..=hi`:
/// the written integer when it is in range, else nothing.
pub open spec fn parse_in_range(s: Seq<char>, lo: int, hi: int) -> Option<int> {
    match spec_parse_decimal(s) {
        Some(v) => if lo <= v <= hi {
            Some(v)
        } else {
            None
        },
        None => None,
    }
}

proof fn lemma_decimal_value_nonneg(s: Seq<char>)
    requires
        all_digits(s),
    ensures
        decimal_value(s) >= 0,
    decreases s.len(),
{
    if s.len() > 0 {
        lemma_decimal_value_nonneg(s.drop_last());
    }
}

/// The value of a digit string is at least the value of any of its prefixes.
proof fn lemma_decimal_value_prefix(s: Seq<char>, k: int)
    requires
        all_digits(s),
        0 <= k <= s.len(),
    ensures
        decimal_value(s.take(k)) <= decimal_value(s),
    decreases s.len(),
{
    if k == s.len() {
        assert(s.take(k) =~= s);
    } else {
        let p = s.drop_last();
        assert(p.take(k) =~= s.take(k));
        lemma_decimal_value_prefix(p, k);
        lemma_decimal_value_nonneg(p);
    }
}

/// Parses a signed decimal integer that fits in an `i64`.
fn parse_i64_value(s: &str) -> (r: Option<i64>)
    ensures
        match r {
            Some(x) => parse_in_range(s@, i64::MIN as int, i64::MAX as int) == Some(x as int),
            None => parse_in_range(s@, i64::MIN as int, i64::MAX as int) is None,
        },
{
    let n = s.unicode_len();
    if n == 0 {
        return None;
    }
    let first = s.get_char(0);
    let negative = first == '-';
    let start: usize = if negative || first == '+' {
        1
    } else {
        0
    };
    if start == n {
        return None;
    }
    let ghost d = s@.subrange(start as int, n as int);
    assert(start == 1 ==> d =~= s@.drop_first());
    assert(start == 0 ==> d =~= s@);
    let limit: u128 = 9223372036854775808;
    let mut acc: u128 = 0;
    let mut i: usize = start;
    while i < n
        invariant
            n == s@.len(),
            start <= i <= n,
            d == s@.subrange(start as int, n as int),
            start <= 1,
            start == 1 ==> d == s@.drop_first(),
            start == 0 ==> d == s@,
            start == 1 <==> (s@[0] == '-' || s@[0] == '+'),
            negative == (s@[0] == '-'),
            0 < n,
            all_digits(s@.subrange(start as int, i as int)),
            acc == decimal_value(s@.subrange(start as int, i as int)),
            acc <= limit,
            limit == 9223372036854775808,
        decreases n - i,
    {
        let c = s.get_char(i);
        if !('0' <= c && c <= '9') {
            assert(d[i - start] == c);
            assert(!all_digits(d));
            assert(spec_parse_decimal(s@) is None);
            return None;
        }
        let dv = (c as u32 - '0' as u32) as u128;
        let ghost t = s@.subrange(start as int, i + 1);
        assert(t.drop_last() =~= s@.subrange(start as int, i as int));
        assert(t.last() == c);
        assert(all_digits(t));
        let next = acc * 10 + dv;
        assert(decimal_value(t) == next);
        if next > limit {
            proof {
                if all_digits(d) {
                    assert(d.take(i + 1 - start) =~= t);
                    lemma_decimal_value_prefix(d, i + 1 - start);
                    assert(decimal_value(d) > 9223372036854775808);
                }
                if start == 1 {
                    assert(s@.drop_first() == d);
                } else {
                    assert(s@ == d);
                }
                assert(parse_in_range(s@, i64::MIN as int, i64::MAX as int) is None);
            }
            return None;
        }
        acc = next;
        i = i + 1;
    }
    assert(s@.subrange(start as int, n as int) =~= d);
    if negative {
        if acc == limit {
            Some(i64::MIN)
        } else {
            Some(-(acc as i64))
        }
    } else {
        if acc == limit {
            None
        } else {
            Some(acc as i64)
        }
    }
}

/// The decimal digit character for `d` in `0..=9`.
pub open spec fn digit_char(d: int) -> char {
    if d == 0 {
        '0'
    } else if d == 1 {
        '1'
    } else if d == 2 {
        '2'
    } else if d == 3 {
        '3'
    } else if d == 4 {
        '4'
    } else if d == 5 {
        '5'
    } else if d == 6 {
        '6'
    } else if d == 7 {
        '7'
    } else if d == 8 {
        '8'
    } else {
        '9'
    }
}

/// The shortest decimal writing of `n`, most significant digit first.
pub open spec fn digits_of(n: nat) -> Seq<char>
    decreases n,
{
    if n < 10 {
        seq![digit_char(n as int)]
    } else {
        digits_of(n / 10).push(digit_char((n % 10) as int))
    }
}

/// The usual decimal writing of the integer `v`: a `-` for negative numbers, then its digits.
pub open spec fn int_text(v: int) -> Seq<char> {
    if v < 0 {
        seq!['-'] + digits_of((-v) as nat)
    } else {
        digits_of(v as nat)
    }
}

proof fn lemma_digit_char(d: int)
    requires
        0 <= d <= 9,
    ensures
        is_digit(digit_char(d)),
        digit_value(digit_char(d)) == d,
{
}

proof fn lemma_digits_of(n: nat)
    ensures
        digits_of(n).len() > 0,
        all_digits(digits_of(n)),
        decimal_value(digits_of(n)) == n,
    decreases n,
{
    if n < 10 {
        lemma_digit_char(n as int);
        let s = digits_of(n);
        assert(s.drop_last() =~= Seq::<char>::empty());
        assert(decimal_value(s) == decimal_value(s.drop_last()) * 10 + digit_value(s.last()));
    } else {
        lemma_digits_of(n / 10);
        lemma_digit_char((n % 10) as int);
        let s = digits_of(n);
        assert(s.drop_last() =~= digits_of(n / 10));
        assert(s.last() == digit_char((n % 10) as int));
        assert(decimal_value(s) == decimal_value(s.drop_last()) * 10 + digit_value(s.last()));
        assert((n / 10) * 10 + n % 10 == n);
        assert forall|i: int| 0 <= i < s.len() implies is_digit(#[trigger] s[i]) by {
            if i < s.len() - 1 {
                assert(s[i] == digits_of(n / 10)[i]);
            }
        }
    }
}

/// The decimal writing of any integer parses back to that integer, and it is
/// accepted by an integer type exactly when the integer is in the type's range.
pub proof fn law_parse_reads_decimal_writing(v: int, lo: int, hi: int)
    ensures
        spec_parse_decimal(int_text(v)) == Some(v),
        parse_in_range(int_text(v), lo, hi) == (if lo <= v <= hi {
            Some(v)
        } else {
            None::<int>
        }),
{
    if v < 0 {
        let n = (-v) as nat;
        lemma_digits_of(n);
        let s = int_text(v);
        assert(s.drop_first() =~= digits_of(n));
    } else {
        let n = v as nat;
        lemma_digits_of(n);
        assert(is_digit(digits_of(n)[0]));
    }
}

/// What parsing accepts: exactly an optional `+` or `-` followed by one or
/// more decimal digits. A `+` sign and leading zeros do not change the value,
/// and a `-` sign negates it.
pub proof fn law_parse_accepts_signed_digit_strings(s: Seq<char>)
    ensures
        spec_parse_decimal(s) is Some <==> s.len() > 0 && (forall|i: int|
            0 < i < s.len() ==> is_digit(#[trigger] s[i])) && (is_digit(s[0]) || ((s[0] == '+'
            || s[0] == '-') && s.len() > 1)),
        s.len() > 0 && all_digits(s) ==> spec_parse_decimal(seq!['+'] + s) == spec_parse_decimal(
            s,
        ) && spec_parse_decimal(seq!['0'] + s) == spec_parse_decimal(s)
            && spec_parse_decimal(seq!['-'] + s) == Some(-spec_parse_decimal(s)->0),
{
    if s.len() > 0 {
        if is_digit(s[0]) {
            assert(s[0] != '+' && s[0] != '-');
            if forall|i: int| 0 < i < s.len() ==> is_digit(#[trigger] s[i]) {
                assert(all_digits(s));
            }
        } else if s[0] == '+' || s[0] == '-' {
            let d = s.drop_first();
            assert forall|i: int| 0 < i < s.len() implies is_digit(#[trigger] s[i]) <==> is_digit(
                d[i - 1],
            ) by {}
            if forall|i: int| 0 < i < s.len() ==> is_digit(#[trigger] s[i]) {
                assert forall|i: int| 0 <= i < d.len() implies is_digit(#[trigger] d[i]) by {
                    assert(d[i] == s[i + 1]);
                }
            }
            if all_digits(d) {
                assert forall|i: int| 0 < i < s.len() implies is_digit(#[trigger] s[i]) by {
                    assert(s[i] == d[i - 1]);
                }
            }
        } else {
            assert(!all_digits(s));
        }
        if all_digits(s) {
            let plus = seq!['+'] + s;
            let minus = seq!['-'] + s;
            let zero = seq!['0'] + s;
            assert(plus.drop_first() =~= s);
            assert(minus.drop_first() =~= s);
            lemma_leading_zero(s);
            assert forall|i: int| 0 <= i < zero.len() implies is_digit(#[trigger] zero[i]) by {
                if i > 0 {
                    assert(zero[i] == s[i - 1]);
                }
            }
            assert(zero[0] != '+' && zero[0] != '-');
        }
    }
}

proof fn lemma_leading_zero(s: Seq<char>)
    ensures
        decimal_value(seq!['0'] + s) == decimal_value(s),
    decreases s.len(),
{
    let z = seq!['0'] + s;
    if s.len() == 0 {
        assert(z.drop_last() =~= Seq::<char>::empty());
        assert(decimal_value(z) == decimal_value(z.drop_last()) * 10 + digit_value(z.last()));
        assert(decimal_value(s) == 0);
    } else {
        assert(z.drop_last() =~= seq!['0'] + s.drop_last());
        assert(z.last() == s.last());
        lemma_leading_zero(s.drop_last());
        assert(decimal_value(z) == decimal_value(z.drop_last()) * 10 + digit_value(z.last()));
        assert(decimal_value(s) == decimal_value(s.drop_last()) * 10 + digit_value(s.last()));
    }
}

/// A string that parses as a narrower integer type parses to the same value
/// as every wider one.
pub proof fn law_parse_widening(s: Seq<char>)
    ensures
        parse_in_range(s, i16::MIN as int, i16::MAX as int) is Some ==> parse_in_range(
            s,
            i32::MIN as int,
            i32::MAX as int,
        ) == parse_in_range(s, i16::MIN as int, i16::MAX as int),
        parse_in_range(s, i32::MIN as int, i32::MAX as int) is Some ==> parse_in_range(
            s,
            i64::MIN as int,
            i64::MAX as int,
        ) == parse_in_range(s, i32::MIN as int, i32::MAX as int),
{
}

/// Parses `s` as an `i16`, as `str::parse::<i16>` does.
pub fn parse_i16(s: &str) -> (r: Option<i16>)
    ensures
        match r {
            Some(x) => parse_in_range(s@, i16::MIN as int, i16::MAX as int) == Some(x as int),
            None => parse_in_range(s@, i16::MIN as int, i16::MAX as int) is None,
        },
{
    match parse_i64_value(s) {
        Some(v) => if i16::MIN as i64 <= v && v <= i16::MAX as i64 {
            Some(v as i16)
        } else {
            None
        },
        None => None,
    }
}

/// Parses `s` as an `i32`, as `str::parse::<i32>` does.
pub fn parse_i32(s: &str) -> (r: Option<i32>)
    ensures
        match r {
            Some(x) => parse_in_range(s@, i32::MIN as int, i32::MAX as int) == Some(x as int),
            None => parse_in_range(s@, i32::MIN as int, i32::MAX as int) is None,
        },
{
    match parse_i64_value(s) {
        Some(v) => if i32::MIN as i64 <= v && v <= i32::MAX as i64 {
            Some(v as i32)
        } else {
            None
        },
        None => None,
    }
}

/// Parses `s` as an `i64`, as `str::parse::<i64>` does.
pub fn parse_i64(s: &str) -> (r: Option<i64>)
    ensures
        match r {
            Some(x) => parse_in_range(s@, i64::MIN as int, i64::MAX as int) == Some(x as int),
            None => parse_in_range(s@, i64::MIN as int, i64::MAX as int) is None,
        },
{
    parse_i64_value(s)
}

} // verus!

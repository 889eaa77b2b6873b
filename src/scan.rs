//! Reading text: first occurrences, words, lines, trimming and decimal numbers.
use vstd::prelude::*;

verus! {

/// The first index of `c` in `s` is `i`.
pub open spec fn first_index_is(s: Seq<char>, c: char, i: int) -> bool {
    0 <= i < s.len() && s[i] == c && forall|j: int| 0 <= j < i ==> s[j] != c
}

/// `s` split around the first `c`, where it has one.
pub open spec fn split_once(s: Seq<char>, c: char) -> Option<(Seq<char>, Seq<char>)> {
    if exists|i: int| first_index_is(s, c, i) {
        let i = choose|i: int| first_index_is(s, c, i);
        Some((s.take(i), s.skip(i + 1)))
    } else {
        None
    }
}

/// `s` without its trailing `c`s.
pub open spec fn trim_end(s: Seq<char>, c: char) -> Seq<char>
    decreases s.len(),
{
    if s.len() > 0 && s.last() == c {
        trim_end(s.drop_last(), c)
    } else {
        s
    }
}

pub open spec fn is_digit(c: char) -> bool {
    '0' <= c <= '9'
}

pub open spec fn digit_value(c: char) -> int {
    c as int - '0' as int
}

/// The number a run of decimal digits writes.
pub open spec fn digits_value(s: Seq<char>) -> int
    decreases s.len(),
{
    if s.len() == 0 {
        0
    } else {
        digits_value(s.drop_last()) * 10 + digit_value(s.last())
    }
}

pub open spec fn all_digits(s: Seq<char>) -> bool {
    forall|i: int| 0 <= i < s.len() ==> is_digit(#[trigger] s[i])
}

/// A decimal integer with an optional sign, as `i64`'s `from_str` reads it:
/// at least one digit, and within the range of `i64`.
pub open spec fn int_value(s: Seq<char>) -> Option<int> {
    let neg = s.len() > 0 && s[0] == '-';
    let digits = if s.len() > 0 && (s[0] == '-' || s[0] == '+') {
        s.skip(1)
    } else {
        s
    };
    let v = if neg { -digits_value(digits) } else { digits_value(digits) };
    if digits.len() > 0 && all_digits(digits) && i64::MIN <= v <= i64::MAX {
        Some(v)
    } else {
        None
    }
}

pub proof fn lemma_digits_grow(s: Seq<char>, i: int, j: int)
    requires
        0 <= i <= j <= s.len(),
        all_digits(s),
    ensures
        0 <= digits_value(s.take(i)) <= digits_value(s.take(j)),
    decreases j,
{
    if j > 0 {
        assert(s.take(j).drop_last() =~= s.take(j - 1));
        assert(is_digit(s[j - 1]));
        if i == j {
            lemma_digits_grow(s, j - 1, j - 1);
        } else {
            lemma_digits_grow(s, i, j - 1);
        }
    } else {
        assert(s.take(0).len() == 0);
    }
}

pub proof fn lemma_first_index_unique(s: Seq<char>, c: char, i: int, j: int)
    requires
        first_index_is(s, c, i),
        first_index_is(s, c, j),
    ensures
        i == j,
{
    if i < j {
        assert(s[i] != c);
    } else if j < i {
        assert(s[j] != c);
    }
}

/// Finds the first `c` in `s[from..to]`.
pub(crate) fn split_at_first(s: &Vec<char>, from: usize, to: usize, c: char) -> (r: Option<usize>)
    requires
        from <= to <= s@.len(),
    ensures
        r matches Some(i) ==> from <= i < to && split_once(s@.subrange(from as int, to as int), c)
            == Some((s@.subrange(from as int, i as int), s@.subrange(i + 1, to as int))),
        r is None ==> split_once(s@.subrange(from as int, to as int), c) is None,
{
    let ghost t = s@.subrange(from as int, to as int);
    let mut i = from;
    while i < to
        invariant
            from <= i <= to <= s@.len(),
            t == s@.subrange(from as int, to as int),
            forall|j: int| from <= j < i ==> s@[j] != c,
        decreases to - i,
    {
        if s[i] == c {
            proof {
                assert(first_index_is(t, c, i - from)) by {
                    assert forall|j: int| 0 <= j < i - from implies t[j] != c by {
                        assert(t[j] == s@[from + j]);
                    }
                }
                let k = choose|k: int| first_index_is(t, c, k);
                lemma_first_index_unique(t, c, k, i - from);
                assert(t.take(i - from) =~= s@.subrange(from as int, i as int));
                assert(t.skip(i - from + 1) =~= s@.subrange(i + 1, to as int));
            }
            return Some(i);
        }
        i = i + 1;
    }
    proof {
        assert forall|k: int| !first_index_is(t, c, k) by {
            if 0 <= k < t.len() {
                assert(t[k] == s@[from + k]);
            }
        }
    }
    None
}

/// Reads a decimal integer from `s[from..to]` as `i64`'s `from_str` does.
pub(crate) fn parse_int(s: &Vec<char>, from: usize, to: usize) -> (r: Option<i128>)
    requires
        from <= to <= s@.len(),
    ensures
        r matches Some(v) ==> int_value(s@.subrange(from as int, to as int)) == Some(v as int),
        r is None ==> int_value(s@.subrange(from as int, to as int)) is None,
{
    let ghost t = s@.subrange(from as int, to as int);
    let mut start = from;
    let mut neg = false;
    if from < to && s[from] == '-' {
        neg = true;
        start = from + 1;
    } else if from < to && s[from] == '+' {
        start = from + 1;
    }
    let ghost digits = s@.subrange(start as int, to as int);
    assert(digits =~= (if t.len() > 0 && (t[0] == '-' || t[0] == '+') { t.skip(1) } else { t }));
    if start == to {
        return None;
    }
    let mut v: i128 = 0;
    let mut i = start;
    while i < to
        invariant
            start <= i <= to <= s@.len(),
            from <= start,
            t == s@.subrange(from as int, to as int),
            digits == s@.subrange(start as int, to as int),
            digits == (if t.len() > 0 && (t[0] == '-' || t[0] == '+') { t.skip(1) } else { t }),
            neg == (t.len() > 0 && t[0] == '-'),
            forall|j: int| start <= j < i ==> is_digit(s@[j]),
            v == digits_value(digits.take(i - start)),
            0 <= v <= 0x1_0000_0000_0000_0000,
        decreases to - i,
    {
        let ch = s[i];
        if !('0' <= ch && ch <= '9') {
            assert(digits[i - start] == s@[i as int]);
            assert(!is_digit(digits[i - start]));
            return None;
        }
        assert(digits.take(i - start + 1).drop_last() =~= digits.take(i - start));
        v = v * 10 + (ch as u32 - '0' as u32) as i128;
        i = i + 1;
        if v > 0x1_0000_0000_0000_0000 {
            proof {
                if all_digits(digits) {
                    lemma_digits_grow(digits, i - start, digits.len() as int);
                    assert(digits.take(digits.len() as int) =~= digits);
                }
            }
            return None;
        }
    }
    assert(digits.take(to - start) =~= digits);
    assert(all_digits(digits)) by {
        assert forall|j: int| 0 <= j < digits.len() implies is_digit(#[trigger] digits[j]) by {
            assert(digits[j] == s@[start + j]);
        }
    }
    let r = if neg { -v } else { v };
    if r < i64::MIN as i128 || r > i64::MAX as i128 {
        None
    } else {
        Some(r)
    }
}

/// Length of `s[..n]` once its trailing `c`s are dropped.
pub(crate) fn trimmed_end(s: &Vec<char>, c: char) -> (n: usize)
    ensures
        n <= s@.len(),
        s@.take(n as int) == trim_end(s@, c),
{
    let mut n = s.len();
    assert(s@.take(n as int) =~= s@);
    while n > 0 && s[n - 1] == c
        invariant
            n <= s@.len(),
            trim_end(s@.take(n as int), c) == trim_end(s@, c),
        decreases n,
    {
        assert(s@.take(n as int).drop_last() =~= s@.take(n - 1));
        n = n - 1;
    }
    n
}

/// `char::is_whitespace`: the characters with Unicode's White_Space property.
pub open spec fn is_ws(c: char) -> bool {
    ('\u{9}' <= c <= '\u{d}') || c == ' ' || c == '\u{85}' || c == '\u{a0}' || c == '\u{1680}'
        || ('\u{2000}' <= c <= '\u{200a}') || c == '\u{2028}' || c == '\u{2029}' || c == '\u{202f}'
        || c == '\u{205f}' || c == '\u{3000}'
}

pub(crate) fn is_ws_char(c: char) -> (r: bool)
    ensures
        r == is_ws(c),
{
    ('\u{9}' <= c && c <= '\u{d}') || c == ' ' || c == '\u{85}' || c == '\u{a0}' || c == '\u{1680}'
        || ('\u{2000}' <= c && c <= '\u{200a}') || c == '\u{2028}' || c == '\u{2029}' || c
        == '\u{202f}' || c == '\u{205f}' || c == '\u{3000}'
}

/// Words finished so far and the word in progress, after reading `s`.
pub open spec fn words_state(s: Seq<char>) -> (Seq<Seq<char>>, Seq<char>)
    decreases s.len(),
{
    if s.len() == 0 {
        (Seq::empty(), Seq::empty())
    } else {
        let (done, cur) = words_state(s.drop_last());
        let c = s.last();
        if is_ws(c) {
            if cur.len() > 0 {
                (done.push(cur), Seq::empty())
            } else {
                (done, Seq::empty())
            }
        } else {
            (done, cur.push(c))
        }
    }
}

/// The whitespace-separated words of `s`.
pub open spec fn words(s: Seq<char>) -> Seq<Seq<char>> {
    let (done, cur) = words_state(s);
    if cur.len() > 0 {
        done.push(cur)
    } else {
        done
    }
}

/// `s` without leading and trailing whitespace.
pub open spec fn trim_ws(s: Seq<char>) -> Seq<char>
    decreases s.len(),
{
    if s.len() > 0 && is_ws(s[0]) {
        trim_ws(s.drop_first())
    } else if s.len() > 0 && is_ws(s.last()) {
        trim_ws(s.drop_last())
    } else {
        s
    }
}

/// Splits characters into words.
pub(crate) fn split_words(s: &Vec<char>) -> (r: Vec<Vec<char>>)
    ensures
        r@.map_values(|w: Vec<char>| w@) == words(s@),
{
    let mut done: Vec<Vec<char>> = Vec::new();
    let mut cur: Vec<char> = Vec::new();
    let mut i: usize = 0;
    while i < s.len()
        invariant
            i <= s@.len(),
            (done@.map_values(|w: Vec<char>| w@), cur@) == words_state(s@.take(i as int)),
        decreases s@.len() - i,
    {
        let c = s[i];
        assert(s@.take(i + 1).drop_last() =~= s@.take(i as int));
        let ghost d0 = done@.map_values(|w: Vec<char>| w@);
        if is_ws_char(c) {
            if cur.len() > 0 {
                let w = cur;
                let ghost wv = w@;
                done.push(w);
                assert(done@.map_values(|w: Vec<char>| w@) =~= d0.push(wv));
                cur = Vec::new();
            } else {
                cur = Vec::new();
            }
        } else {
            cur.push(c);
        }
        i = i + 1;
    }
    assert(s@.take(s@.len() as int) =~= s@);
    if cur.len() > 0 {
        let ghost d0 = done@.map_values(|w: Vec<char>| w@);
        let ghost wv = cur@;
        done.push(cur);
        assert(done@.map_values(|w: Vec<char>| w@) =~= d0.push(wv));
    }
    done
}

/// Bounds of `s` without its surrounding whitespace.
pub(crate) fn trim_bounds(s: &Vec<char>) -> (r: (usize, usize))
    ensures
        r.0 <= r.1 <= s@.len(),
        s@.subrange(r.0 as int, r.1 as int) == trim_ws(s@),
{
    let mut a: usize = 0;
    let mut b: usize = s.len();
    assert(s@.subrange(0, b as int) =~= s@);
    while a < b && is_ws_char(s[a])
        invariant
            a <= b == s@.len(),
            trim_ws(s@.subrange(a as int, b as int)) == trim_ws(s@),
        decreases b - a,
    {
        assert(s@.subrange(a as int, b as int).drop_first() =~= s@.subrange(a + 1, b as int));
        a = a + 1;
    }
    while a < b && is_ws_char(s[b - 1])
        invariant
            a <= b <= s@.len(),
            a < b ==> !is_ws(s@[a as int]),
            trim_ws(s@.subrange(a as int, b as int)) == trim_ws(s@),
        decreases b - a,
    {
        assert(s@.subrange(a as int, b as int).drop_last() =~= s@.subrange(a as int, b - 1));
        b = b - 1;
    }
    assert(trim_ws(s@.subrange(a as int, b as int)) == s@.subrange(a as int, b as int));
    (a, b)
}

pub open spec fn pow10(k: nat) -> nat
    decreases k,
{
    if k == 0 {
        1
    } else {
        10 * pow10((k - 1) as nat)
    }
}

pub open spec fn unsigned_body(s: Seq<char>) -> Seq<char> {
    if s.len() > 0 && s[0] == '+' {
        s.skip(1)
    } else {
        s
    }
}

/// Digits before the point.
pub open spec fn whole_part(body: Seq<char>) -> Seq<char> {
    match split_once(body, '.') {
        Some((w, _)) => w,
        None => body,
    }
}

/// Digits after the point.
pub open spec fn frac_part(body: Seq<char>) -> Seq<char> {
    match split_once(body, '.') {
        Some((_, f)) => f,
        None => Seq::<char>::empty(),
    }
}

/// A non-negative decimal such as `0.455` or `+12` read in units of
/// `10^-k`: an optional `+`, digits before and after at most one `.`, at
/// least one digit in all; fractional digits beyond `k` are dropped.
/// `None` otherwise, or where the value exceeds `u64`.
pub open spec fn fixed_value(s: Seq<char>, k: nat) -> Option<int> {
    let whole = whole_part(unsigned_body(s));
    let frac = frac_part(unsigned_body(s));
    let kept = if frac.len() >= k {
        frac.take(k as int)
    } else {
        frac
    };
    let v = digits_value(whole) * pow10(k) + digits_value(kept) * pow10((k - kept.len()) as nat);
    if whole.len() + frac.len() > 0 && all_digits(whole) && all_digits(frac) && v <= u64::MAX {
        Some(v)
    } else {
        None
    }
}

pub proof fn lemma_pow10_bounds(k: nat)
    requires
        k <= 6,
    ensures
        1 <= pow10(k) <= 1_000_000,
{
    reveal_with_fuel(pow10, 7);
}

pub proof fn lemma_digits_below_pow10(s: Seq<char>)
    requires
        all_digits(s),
    ensures
        0 <= digits_value(s) < pow10(s.len()),
    decreases s.len(),
{
    if s.len() > 0 {
        assert(all_digits(s.drop_last())) by {
            assert forall|i: int| 0 <= i < s.len() - 1 implies is_digit(#[trigger] s.drop_last()[i]) by {
                assert(s.drop_last()[i] == s[i]);
            }
        }
        lemma_digits_below_pow10(s.drop_last());
        assert(is_digit(s[s.len() - 1]));
    }
}

/// Reads `s[from..to]` as a decimal in units of `10^-k`; see `fixed_value`.
pub(crate) fn parse_fixed(s: &Vec<char>, from: usize, to: usize, k: u32) -> (r: Option<u64>)
    requires
        from <= to <= s@.len(),
        k <= 6,
    ensures
        r matches Some(v) ==> fixed_value(s@.subrange(from as int, to as int), k as nat) == Some(v as int),
        r is None ==> fixed_value(s@.subrange(from as int, to as int), k as nat) is None,
{
    let ghost t = s@.subrange(from as int, to as int);
    let start = if from < to && s[from] == '+' { from + 1 } else { from };
    let ghost body = s@.subrange(start as int, to as int);
    assert(body =~= (if t.len() > 0 && t[0] == '+' { t.skip(1) } else { t }));
    let dot = split_at_first(s, start, to, '.');
    let whole_end = match dot {
        Some(d) => d,
        None => to,
    };
    let frac_start = match dot {
        Some(d) => d + 1,
        None => to,
    };
    let ghost whole = s@.subrange(start as int, whole_end as int);
    let ghost frac = s@.subrange(frac_start as int, to as int);
    assert(dot is None ==> body =~= whole);
    assert(dot is None ==> frac =~= Seq::<char>::empty());
    assert(whole == whole_part(unsigned_body(t)));
    assert(frac == frac_part(unsigned_body(t)));
    // the whole part
    let mut w: u128 = 0;
    let mut i = start;
    while i < whole_end
        invariant
            start <= i <= whole_end <= to <= s@.len(),
            k <= 6,
            t == s@.subrange(from as int, to as int),
            whole == whole_part(unsigned_body(t)),
            frac == frac_part(unsigned_body(t)),
            whole == s@.subrange(start as int, whole_end as int),
            forall|j: int| start <= j < i ==> is_digit(s@[j]),
            w == digits_value(whole.take(i - start)),
            0 <= w <= 0x1_0000_0000_0000_0000,
        decreases whole_end - i,
    {
        let ch = s[i];
        if !('0' <= ch && ch <= '9') {
            assert(!is_digit(whole[i - start]));
            return None;
        }
        assert(whole.take(i - start + 1).drop_last() =~= whole.take(i - start));
        w = w * 10 + (ch as u32 - '0' as u32) as u128;
        i = i + 1;
        if w > 0x1_0000_0000_0000_0000 {
            proof {
                if all_digits(whole) {
                    lemma_digits_grow(whole, i - start, whole.len() as int);
                    assert(whole.take(whole.len() as int) =~= whole);
                    let kk = k as nat;
                    lemma_pow10_bounds(kk);
                    assert(digits_value(whole) * pow10(kk) >= digits_value(whole)) by (nonlinear_arith)
                        requires pow10(kk) >= 1, digits_value(whole) >= 0;
                    let frac_v = if frac.len() >= kk { frac.take(kk as int) } else { frac };
                    if all_digits(frac) {
                        assert(all_digits(frac_v)) by {
                            assert forall|j: int| 0 <= j < frac_v.len() implies is_digit(#[trigger] frac_v[j]) by {
                                assert(frac_v[j] == frac[j]);
                            }
                        }
                        lemma_digits_below_pow10(frac_v);
                        assert(digits_value(frac_v) * pow10((kk - frac_v.len()) as nat) >= 0) by (nonlinear_arith)
                            requires digits_value(frac_v) >= 0;
                    }
                }
            }
            return None;
        }
    }
    assert(whole.take(whole_end - start) =~= whole);
    assert(all_digits(whole)) by {
        assert forall|j: int| 0 <= j < whole.len() implies is_digit(#[trigger] whole[j]) by {
            assert(whole[j] == s@[start + j]);
        }
    }
    // the fractional part: every character a digit, the first k kept
    let mut f: u64 = 0;
    let mut kept: u32 = 0;
    let mut i = frac_start;
    while i < to
        invariant
            frac_start <= i <= to <= s@.len(),
            k <= 6,
            t == s@.subrange(from as int, to as int),
            whole == whole_part(unsigned_body(t)),
            frac == frac_part(unsigned_body(t)),
            frac == s@.subrange(frac_start as int, to as int),
            forall|j: int| frac_start <= j < i ==> is_digit(s@[j]),
            kept as int == if i - frac_start <= k { i - frac_start } else { k as int },
            f == digits_value(frac.take(kept as int)),
            0 <= f < pow10(kept as nat),
        decreases to - i,
    {
        let ch = s[i];
        if !('0' <= ch && ch <= '9') {
            assert(!is_digit(frac[i - frac_start]));
            return None;
        }
        if kept < k {
            proof {
                lemma_pow10_bounds(kept as nat);
                assert(frac.take(kept + 1).drop_last() =~= frac.take(kept as int));
                assert(frac[kept as int] == ch);
                assert(f * 10 + 9 < pow10((kept + 1) as nat)) by (nonlinear_arith)
                    requires f < pow10(kept as nat), pow10((kept + 1) as nat) == 10 * pow10(kept as nat);
            }
            f = f * 10 + (ch as u32 - '0' as u32) as u64;
            kept = kept + 1;
        }
        i = i + 1;
    }
    assert(all_digits(frac)) by {
        assert forall|j: int| 0 <= j < frac.len() implies is_digit(#[trigger] frac[j]) by {
            assert(frac[j] == s@[frac_start + j]);
        }
    }
    if whole_end == start && frac_start >= to {
        return None;
    }
    let ghost kept_seq = if frac.len() >= k { frac.take(k as int) } else { frac };
    assert(frac.take(kept as int) =~= kept_seq);
    let mut scale: u128 = 1;
    let mut j: u32 = 0;
    while j < k
        invariant
            j <= k <= 6,
            scale == pow10(j as nat),
        decreases k - j,
    {
        proof {
            lemma_pow10_bounds(j as nat);
        }
        scale = scale * 10;
        j = j + 1;
    }
    let mut frac_scale: u128 = 1;
    let mut j: u32 = kept;
    while j < k
        invariant
            kept <= j <= k <= 6,
            frac_scale == pow10((j - kept) as nat),
        decreases k - j,
    {
        proof {
            lemma_pow10_bounds((j - kept) as nat);
        }
        frac_scale = frac_scale * 10;
        j = j + 1;
    }
    proof {
        lemma_pow10_bounds(k as nat);
        lemma_pow10_bounds(kept as nat);
        lemma_pow10_bounds((k - kept) as nat);
        assert(w * scale <= 0x1_0000_0000_0000_0000 * 1_000_000) by (nonlinear_arith)
            requires w <= 0x1_0000_0000_0000_0000, scale <= 1_000_000;
        assert(f * frac_scale <= 1_000_000 * 1_000_000) by (nonlinear_arith)
            requires f < 1_000_000, frac_scale <= 1_000_000;
    }
    let v: u128 = w * scale + f as u128 * frac_scale;
    if v > u64::MAX as u128 {
        None
    } else {
        Some(v as u64)
    }
}

pub(crate) fn copy_range(s: &Vec<char>, a: usize, b: usize) -> (r: Vec<char>)
    requires
        a <= b <= s@.len(),
    ensures
        r@ == s@.subrange(a as int, b as int),
{
    let mut r: Vec<char> = Vec::new();
    let mut i = a;
    while i < b
        invariant
            a <= i <= b <= s@.len(),
            r@ == s@.subrange(a as int, i as int),
        decreases b - i,
    {
        r.push(s[i]);
        assert(r@ =~= s@.subrange(a as int, i + 1));
        i = i + 1;
    }
    r
}

/// The pieces of `s` between newlines, each still holding a `\r` before
/// its newline; the last piece is what follows the last newline.
pub open spec fn newline_pieces(s: Seq<char>) -> Seq<Seq<char>>
    decreases s.len(),
{
    if s.len() == 0 {
        seq![Seq::<char>::empty()]
    } else {
        let p = newline_pieces(s.drop_last());
        if s.last() == '\n' {
            p.push(Seq::empty())
        } else {
            p.update(p.len() - 1, p.last().push(s.last()))
        }
    }
}

pub open spec fn strip_cr(l: Seq<char>) -> Seq<char> {
    if l.len() > 0 && l.last() == '\r' {
        l.drop_last()
    } else {
        l
    }
}

/// The lines of `s` as `str::lines` gives them: split at `\n` or `\r\n`,
/// with no empty line after a final line ending.
pub open spec fn text_lines(s: Seq<char>) -> Seq<Seq<char>> {
    let p = newline_pieces(s);
    let ended = p.take(p.len() - 1).map_values(|l: Seq<char>| strip_cr(l));
    if p.last().len() == 0 {
        ended
    } else {
        ended.push(p.last())
    }
}

/// Splits text into lines; see `text_lines`.
pub fn split_lines(c: &Vec<char>) -> (r: Vec<Vec<char>>)
    ensures
        r@.map_values(|l: Vec<char>| l@) == text_lines(c@),
{
    let mut done: Vec<Vec<char>> = Vec::new();
    let mut cur: Vec<char> = Vec::new();
    let mut i: usize = 0;
    while i < c.len()
        invariant
            i <= c@.len(),
            newline_pieces(c@.take(i as int)).len() >= 1,
            done@.map_values(|l: Vec<char>| l@) == {
                let p = newline_pieces(c@.take(i as int));
                p.take(p.len() - 1).map_values(|l: Seq<char>| strip_cr(l))
            },
            cur@ == newline_pieces(c@.take(i as int)).last(),
        decreases c@.len() - i,
    {
        let ch = c[i];
        let ghost pieces_before = newline_pieces(c@.take(i as int));
        let ghost d0 = done@.map_values(|l: Vec<char>| l@);
        assert(c@.take(i + 1).drop_last() =~= c@.take(i as int));
        if ch == '\n' {
            let mut line = cur;
            let n = line.len();
            if n > 0 && line[n - 1] == '\r' {
                line.pop();
                assert(line@ =~= strip_cr(pieces_before.last()));
            }
            let ghost lv = line@;
            done.push(line);
            cur = Vec::new();
            proof {
                let pieces_after = newline_pieces(c@.take(i + 1));
                assert(pieces_after == pieces_before.push(Seq::<char>::empty()));
                assert(pieces_after.take(pieces_after.len() - 1) =~= pieces_before);
                assert(pieces_before =~= pieces_before.take(pieces_before.len() - 1).push(pieces_before.last()));
                assert(done@.map_values(|l: Vec<char>| l@) =~= d0.push(lv));
                assert(pieces_after.take(pieces_after.len() - 1).map_values(|l: Seq<char>| strip_cr(l)) =~= pieces_before.take(
                    pieces_before.len() - 1,
                ).map_values(|l: Seq<char>| strip_cr(l)).push(strip_cr(pieces_before.last())));
            }
        } else {
            cur.push(ch);
            proof {
                let pieces_after = newline_pieces(c@.take(i + 1));
                assert(pieces_after.take(pieces_after.len() - 1) =~= pieces_before.take(pieces_before.len() - 1));
            }
        }
        i = i + 1;
    }
    assert(c@.take(c@.len() as int) =~= c@);
    if cur.len() > 0 {
        let ghost d0 = done@.map_values(|l: Vec<char>| l@);
        let ghost lv = cur@;
        done.push(cur);
        assert(done@.map_values(|l: Vec<char>| l@) =~= d0.push(lv));
    }
    done
}

} // verus!

//! Text operations on strings, stated over their characters.
use vstd::prelude::*;
use crate::json::{chars_of, string_of};

verus! {

/// The pieces of `s` between occurrences of `c` (always at least one piece).
pub open spec fn split_on(s: Seq<char>, c: char) -> Seq<Seq<char>>
    decreases s.len(),
{
    if s.len() == 0 {
        seq![Seq::empty()]
    } else {
        let rest = split_on(s.drop_first(), c);
        if s[0] == c {
            seq![Seq::<char>::empty()] + rest
        } else {
            rest.update(0, seq![s[0]] + rest[0])
        }
    }
}

/// The index of the first occurrence of `c` in `s`.
pub open spec fn find_char(s: Seq<char>, c: char) -> Option<int>
    decreases s.len(),
{
    if s.len() == 0 {
        None
    } else if s[0] == c {
        Some(0)
    } else {
        match find_char(s.drop_first(), c) {
            Some(i) => Some(i + 1),
            None => None,
        }
    }
}

/// Does `s` begin with `p`?
pub open spec fn starts_with(s: Seq<char>, p: Seq<char>) -> bool {
    p.len() <= s.len() && s.take(p.len() as int) == p
}

/// The characters with the Unicode White_Space property.
pub open spec fn is_ws(c: char) -> bool {
    ||| '\u{9}' <= c <= '\u{d}'
    ||| c == ' '
    ||| c == '\u{85}'
    ||| c == '\u{a0}'
    ||| c == '\u{1680}'
    ||| '\u{2000}' <= c <= '\u{200a}'
    ||| c == '\u{2028}'
    ||| c == '\u{2029}'
    ||| c == '\u{202f}'
    ||| c == '\u{205f}'
    ||| c == '\u{3000}'
}

/// `s` without leading characters that satisfy `p`.
pub open spec fn trim_start_by(s: Seq<char>, p: spec_fn(char) -> bool) -> Seq<char>
    decreases s.len(),
{
    if s.len() > 0 && p(s[0]) {
        trim_start_by(s.drop_first(), p)
    } else {
        s
    }
}

/// `s` without trailing characters that satisfy `p`.
pub open spec fn trim_end_by(s: Seq<char>, p: spec_fn(char) -> bool) -> Seq<char>
    decreases s.len(),
{
    if s.len() > 0 && p(s.last()) {
        trim_end_by(s.drop_last(), p)
    } else {
        s
    }
}

/// `s` without leading and trailing white space.
pub open spec fn trim_ws(s: Seq<char>) -> Seq<char> {
    trim_end_by(trim_start_by(s, |c: char| is_ws(c)), |c: char| is_ws(c))
}

/// `s` without leading and trailing occurrences of `c`.
pub open spec fn trim_char(s: Seq<char>, c: char) -> Seq<char> {
    trim_end_by(trim_start_by(s, is_char(c)), is_char(c))
}

/// The test for one character.
pub open spec fn is_char(c: char) -> spec_fn(char) -> bool {
    |x: char| x == c
}

/// Is `c` a decimal digit?
pub open spec fn is_digit(c: char) -> bool {
    '0' <= c <= '9'
}

/// The value of a sequence of decimal digits.
pub open spec fn digits_value(s: Seq<char>) -> nat
    decreases s.len(),
{
    if s.len() == 0 {
        0
    } else {
        digits_value(s.drop_last()) * 10 + ((s.last() as int - '0' as int) as nat)
    }
}

/// The unsigned integer that `s` denotes: an optional `+` then one or more
/// decimal digits, with a value that fits in `usize`.
pub open spec fn parse_usize(s: Seq<char>) -> Option<usize> {
    let d = if s.len() > 0 && s[0] == '+' {
        s.drop_first()
    } else {
        s
    };
    if d.len() > 0 && all_digits(d) && digits_value(d) <= usize::MAX {
        Some(digits_value(d) as usize)
    } else {
        None
    }
}

/// The decimal digits of `n`, without leading zeros.
pub open spec fn decimal(n: nat) -> Seq<char>
    decreases n,
{
    if n < 10 {
        seq![digit_char(n)]
    } else {
        decimal(n / 10).push(digit_char(n % 10))
    }
}

/// The character of a digit.
pub open spec fn digit_char(d: nat) -> char {
    if d == 0 {
        '0'
    } else if d == 1 {
        '1'
    } else if d == 2 {
        '2'
    } else if d == 3 {
        '3'
    } else if d == 4 {
        '4'
    } else if d == 5 {
        '5'
    } else if d == 6 {
        '6'
    } else if d == 7 {
        '7'
    } else if d == 8 {
        '8'
    } else {
        '9'
    }
}

/// The pieces joined with `sep` between neighbours.
pub open spec fn join(parts: Seq<Seq<char>>, sep: Seq<char>) -> Seq<char>
    decreases parts.len(),
{
    if parts.len() == 0 {
        Seq::empty()
    } else if parts.len() == 1 {
        parts[0]
    } else {
        join(parts.drop_last(), sep) + sep + parts.last()
    }
}

/// The views of a sequence of strings.
pub open spec fn strs_view(v: Seq<String>) -> Seq<Seq<char>> {
    Seq::new(v.len(), |i: int| v[i]@)
}

/// The upper-case form of a text, as Unicode case mapping gives it.
pub uninterp spec fn upper_text(s: Seq<char>) -> Seq<char>;

/// The lower-case form of a text, as Unicode case mapping gives it.
pub uninterp spec fn lower_text(s: Seq<char>) -> Seq<char>;

/// The pieces with `cur` put before the first one.
pub open spec fn with_first_prefix(r: Seq<Seq<char>>, cur: Seq<char>) -> Seq<Seq<char>> {
    r.update(0, cur + r[0])
}

/// The pieces between occurrences of `c`, as `str::split` with a
/// character pattern gives them.
pub(crate) fn split_char(s: &str, c: char) -> (v: Vec<String>)
    ensures
        strs_view(v@) == split_on(s@, c),
{
    let cs = chars_of(s);
    let n = cs.len();
    let mut done: Vec<String> = Vec::new();
    let mut cur: Vec<char> = Vec::new();
    let mut i: usize = 0;
    proof {
        assert(cs@.skip(0) =~= cs@);
        lemma_split_nonempty(cs@, c);
        assert(with_first_prefix(split_on(cs@, c), Seq::empty()) =~= split_on(cs@, c)) by {
            assert(Seq::<char>::empty() + split_on(cs@, c)[0] =~= split_on(cs@, c)[0]);
        }
    }
    while i < n
        invariant
            n == cs@.len(),
            cs@ == s@,
            i <= n,
            split_on(s@, c) == strs_view(done@) + with_first_prefix(
                split_on(cs@.skip(i as int), c),
                cur@,
            ),
        decreases n - i,
    {
        let ghost t = cs@.skip(i as int);
        let ghost rest = split_on(cs@.skip(i + 1), c);
        proof {
            assert(t[0] == cs@[i as int]);
            assert(t.drop_first() =~= cs@.skip(i + 1));
            lemma_split_nonempty(cs@.skip(i + 1), c);
        }
        if cs[i] == c {
            let piece = string_of(cur.as_slice());
            let ghost before = strs_view(done@);
            done.push(piece);
            proof {
                assert(strs_view(done@) =~= before.push(cur@));
                assert(split_on(t, c) =~= seq![Seq::<char>::empty()] + rest);
                assert(with_first_prefix(split_on(t, c), cur@) =~= seq![cur@] + rest) by {
                    assert(cur@ + Seq::<char>::empty() =~= cur@);
                }
                assert(with_first_prefix(rest, Seq::<char>::empty()) =~= rest) by {
                    assert(Seq::<char>::empty() + rest[0] =~= rest[0]);
                }
                assert(strs_view(done@) + with_first_prefix(rest, Seq::<char>::empty()) =~= before
                    + with_first_prefix(split_on(t, c), cur@));
            }
            cur = Vec::new();
        } else {
            let ghost old_cur = cur@;
            cur.push(cs[i]);
            proof {
                assert(split_on(t, c) == rest.update(0, seq![cs@[i as int]] + rest[0]));
                assert(cur@ + rest[0] =~= old_cur + (seq![cs@[i as int]] + rest[0]));
                assert(with_first_prefix(rest, cur@) =~= with_first_prefix(split_on(t, c), old_cur));
            }
        }
        i = i + 1;
    }
    let last = string_of(cur.as_slice());
    let ghost before = strs_view(done@);
    done.push(last);
    proof {
        assert(cs@.skip(n as int) =~= Seq::<char>::empty());
        assert(split_on(Seq::<char>::empty(), c) == seq![Seq::<char>::empty()]);
        assert(with_first_prefix(seq![Seq::<char>::empty()], cur@) =~= seq![cur@]) by {
            assert(cur@ + Seq::<char>::empty() =~= cur@);
        }
        assert(strs_view(done@) =~= before.push(cur@));
        assert(before.push(cur@) =~= before + seq![cur@]);
    }
    done
}

/// Characters before `a` satisfy `p` and the one at `a` (if any) does not:
/// trimming the start leaves the rest from `a`.
proof fn lemma_trim_start_at(s: Seq<char>, p: spec_fn(char) -> bool, a: int)
    requires
        0 <= a <= s.len(),
        forall|j: int| 0 <= j < a ==> p(#[trigger] s[j]),
        a < s.len() ==> !p(s[a]),
    ensures
        trim_start_by(s, p) == s.skip(a),
    decreases a,
{
    if a == 0 {
        assert(s.skip(0) =~= s);
    } else {
        let t = s.drop_first();
        assert forall|j: int| 0 <= j < a - 1 implies p(#[trigger] t[j]) by {
            assert(t[j] == s[j + 1]);
        }
        if a - 1 < t.len() {
            assert(t[a - 1] == s[a]);
        }
        lemma_trim_start_at(t, p, a - 1);
        assert(t.skip(a - 1) =~= s.skip(a));
    }
}

/// Characters from `b` on satisfy `p` and the one before `b` (if any) does
/// not: trimming the end leaves the part before `b`.
proof fn lemma_trim_end_at(s: Seq<char>, p: spec_fn(char) -> bool, b: int)
    requires
        0 <= b <= s.len(),
        forall|j: int| b <= j < s.len() ==> p(#[trigger] s[j]),
        b > 0 ==> !p(s[b - 1]),
    ensures
        trim_end_by(s, p) == s.take(b),
    decreases s.len() - b,
{
    if b == s.len() {
        assert(s.take(b) =~= s);
    } else {
        let t = s.drop_last();
        assert forall|j: int| b <= j < t.len() implies p(#[trigger] t[j]) by {
            assert(t[j] == s[j]);
        }
        if b > 0 {
            assert(t[b - 1] == s[b - 1]);
        }
        lemma_trim_end_at(t, p, b);
        assert(t.take(b) =~= s.take(b));
    }
}

/// Is the character white space?
fn char_is_ws(c: char) -> (r: bool)
    ensures
        r == is_ws(c),
{
    ('\u{9}' <= c && c <= '\u{d}') || c == ' ' || c == '\u{85}' || c == '\u{a0}' || c == '\u{1680}'
        || ('\u{2000}' <= c && c <= '\u{200a}') || c == '\u{2028}' || c == '\u{2029}'
        || c == '\u{202f}' || c == '\u{205f}' || c == '\u{3000}'
}

/// The text without leading and trailing white space (the characters with
/// the Unicode White_Space property), as `str::trim` gives it.
pub(crate) fn trim(s: &str) -> (r: String)
    ensures
        r@ == trim_ws(s@),
{
    let cs = chars_of(s);
    let n = cs.len();
    let mut a: usize = 0;
    while a < n && char_is_ws(cs[a])
        invariant
            n == cs@.len(),
            a <= n,
            forall|j: int| 0 <= j < a ==> is_ws(#[trigger] cs@[j]),
        decreases n - a,
    {
        a = a + 1;
    }
    let mut b: usize = n;
    while b > a && char_is_ws(cs[b - 1])
        invariant
            n == cs@.len(),
            a <= b <= n,
            forall|j: int| b <= j < n ==> is_ws(#[trigger] cs@[j]),
        decreases b,
    {
        b = b - 1;
    }
    proof {
        let p = |c: char| is_ws(c);
        assert forall|j: int| 0 <= j < a implies p(#[trigger] cs@[j]) by {}
        lemma_trim_start_at(cs@, p, a as int);
        let t = cs@.skip(a as int);
        assert forall|j: int| b - a <= j < t.len() implies p(#[trigger] t[j]) by {
            assert(t[j] == cs@[j + a]);
        }
        if b > a {
            assert(t[b - a - 1] == cs@[b - 1]);
        }
        lemma_trim_end_at(t, p, b - a);
        assert(t.take(b - a) =~= cs@.subrange(a as int, b as int));
    }
    substring(&cs, a, b)
}

/// The text without leading and trailing occurrences of `c`, as
/// `str::trim_matches` gives it.
pub(crate) fn trim_matches_char(s: &str, c: char) -> (r: String)
    ensures
        r@ == trim_char(s@, c),
{
    let cs = chars_of(s);
    let n = cs.len();
    let mut a: usize = 0;
    while a < n && cs[a] == c
        invariant
            n == cs@.len(),
            a <= n,
            forall|j: int| 0 <= j < a ==> #[trigger] cs@[j] == c,
        decreases n - a,
    {
        a = a + 1;
    }
    let mut b: usize = n;
    while b > a && cs[b - 1] == c
        invariant
            n == cs@.len(),
            a <= b <= n,
            forall|j: int| b <= j < n ==> #[trigger] cs@[j] == c,
        decreases b,
    {
        b = b - 1;
    }
    proof {
        lemma_trim_start_at(cs@, is_char(c), a as int);
        let t = cs@.skip(a as int);
        assert forall|j: int| b - a <= j < t.len() implies #[trigger] t[j] == c by {
            assert(t[j] == cs@[j + a]);
        }
        if b > a {
            assert(t[b - a - 1] == cs@[b - 1]);
        }
        lemma_trim_end_at(t, is_char(c), b - a);
        assert(t.take(b - a) =~= cs@.subrange(a as int, b as int));
    }
    substring(&cs, a, b)
}

/// Are all characters decimal digits?
pub open spec fn all_digits(d: Seq<char>) -> bool {
    forall|i: int| 0 <= i < d.len() ==> is_digit(#[trigger] d[i])
}

/// The value of digits is at least the value of any prefix of them.
proof fn lemma_digits_value_prefix(d: Seq<char>, k: int)
    requires
        0 <= k <= d.len(),
        all_digits(d),
    ensures
        digits_value(d) >= digits_value(d.take(k)),
    decreases d.len(),
{
    if k < d.len() {
        assert(all_digits(d.drop_last()));
        assert(d.drop_last().take(k) =~= d.take(k));
        lemma_digits_value_prefix(d.drop_last(), k);
    } else {
        assert(d.take(k) =~= d);
    }
}

/// The value of the digits from `start` on, when they are all digits and
/// the value is at most `limit`.
fn digits_upto(cs: &Vec<char>, start: usize, limit: u128) -> (r: Option<u128>)
    requires
        start <= cs@.len(),
        limit <= u64::MAX,
    ensures
        r == (if all_digits(cs@.skip(start as int)) && digits_value(cs@.skip(start as int)) <= limit {
            Some(digits_value(cs@.skip(start as int)) as u128)
        } else {
            None
        }),
{
    let ghost d = cs@.skip(start as int);
    let n = cs.len();
    let mut value: u128 = 0;
    let mut i: usize = start;
    assert(d.take(0) =~= Seq::<char>::empty());
    while i < n
        invariant
            n == cs@.len(),
            start <= i <= n,
            d == cs@.skip(start as int),
            limit <= u64::MAX,
            all_digits(d.take(i - start)),
            value == digits_value(d.take(i - start)),
            value <= limit,
        decreases n - i,
    {
        let c = cs[i];
        assert(d[i - start] == c);
        if !('0' <= c && c <= '9') {
            assert(!all_digits(d));
            return None;
        }
        let dig: u128 = (c as u32 - '0' as u32) as u128;
        assert(d.take(i - start + 1).drop_last() =~= d.take(i - start));
        assert(d.take(i - start + 1).last() == c);
        let next = value * 10 + dig;
        assert(all_digits(d.take(i - start + 1))) by {
            assert forall|j: int| 0 <= j < i - start + 1 implies is_digit(
                #[trigger] d.take(i - start + 1)[j],
            ) by {
                if j < i - start {
                    assert(d.take(i - start + 1)[j] == d.take(i - start)[j]);
                }
            }
        }
        assert(next == digits_value(d.take(i - start + 1)));
        if next > limit {
            proof {
                if all_digits(d) {
                    lemma_digits_value_prefix(d, i - start + 1);
                }
            }
            return None;
        }
        value = next;
        i = i + 1;
    }
    assert(d.take(n - start) =~= d);
    Some(value)
}

/// `usize::from_str`: an optional `+` and decimal digits, failing on
/// anything else or on overflow.
pub(crate) fn parse_index(s: &str) -> (r: Option<usize>)
    ensures
        r == parse_usize(s@),
{
    let cs = chars_of(s);
    let start: usize = if cs.len() > 0 && cs[0] == '+' { 1 } else { 0 };
    proof {
        if cs@.len() > 0 && cs@[0] == '+' {
            assert(cs@.skip(1) =~= s@.drop_first());
        } else {
            assert(cs@.skip(0) =~= s@);
        }
    }
    let ghost d = if s@.len() > 0 && s@[0] == '+' {
        s@.drop_first()
    } else {
        s@
    };
    assert(cs@.skip(start as int) == d);
    if start >= cs.len() {
        return None;
    }
    let got = digits_upto(&cs, start, usize::MAX as u128);
    match got {
        Some(v) => {
            assert(v as int == digits_value(d) && digits_value(d) <= usize::MAX);
            let u = v as usize;
            assert(u == digits_value(d) as usize);
            Some(u)
        },
        None => {
            None
        },
    }
}

/// The character of a digit below ten.
fn digit_of(d: u64) -> (c: char)
    requires
        d < 10,
    ensures
        c == digit_char(d as nat),
{
    if d == 0 {
        '0'
    } else if d == 1 {
        '1'
    } else if d == 2 {
        '2'
    } else if d == 3 {
        '3'
    } else if d == 4 {
        '4'
    } else if d == 5 {
        '5'
    } else if d == 6 {
        '6'
    } else if d == 7 {
        '7'
    } else if d == 8 {
        '8'
    } else {
        '9'
    }
}

/// Appends the decimal digits of `n`.
fn push_decimal(n: u64, out: &mut Vec<char>)
    ensures
        final(out)@ == old(out)@ + decimal(n as nat),
    decreases n,
{
    if n >= 10 {
        push_decimal(n / 10, out);
    }
    let ghost mid = out@;
    out.push(digit_of(n % 10));
    proof {
        if n >= 10 {
            assert(out@ =~= old(out)@ + decimal((n / 10) as nat).push(digit_char((n % 10) as nat)));
        } else {
            assert(out@ =~= old(out)@ + seq![digit_char(n as nat)]);
        }
    }
}

/// The decimal digits of a `u64`, as `ToString` writes them.
pub(crate) fn u64_text(n: u64) -> (r: String)
    ensures
        r@ == decimal(n as nat),
{
    let mut out: Vec<char> = Vec::new();
    push_decimal(n, &mut out);
    assert(out@ =~= decimal(n as nat));
    string_of(out.as_slice())
}

/// The decimal digits of a `usize`, as `ToString` writes them.
pub(crate) fn usize_text(n: usize) -> (r: String)
    ensures
        r@ == decimal(n as nat),
{
    u64_text(n as u64)
}

/// Does `p` occur in `s` at position `i`?
pub(crate) fn occurs_at(s: &Vec<char>, p: &Vec<char>, i: usize) -> (r: bool)
    requires
        i + p@.len() <= s@.len(),
    ensures
        r == (s@.subrange(i as int, i + p@.len()) == p@),
{
    let m = p.len();
    let mut k: usize = 0;
    while k < m
        invariant
            m == p@.len(),
            i + m <= s@.len(),
            s@.len() == s.len(),
            k <= m,
            forall|j: int| 0 <= j < k ==> s@[i + j] == p@[j],
        decreases m - k,
    {
        if s[i + k] != p[k] {
            assert(s@.subrange(i as int, i + m)[k as int] != p@[k as int]);
            return false;
        }
        k = k + 1;
    }
    assert(s@.subrange(i as int, i + m) =~= p@);
    true
}

/// Every occurrence of `from` replaced by `to`, matching from the left and
/// without overlaps.
pub open spec fn replace_all(s: Seq<char>, from: Seq<char>, to: Seq<char>) -> Seq<char>
    decreases s.len(),
{
    if from.len() == 0 || s.len() < from.len() {
        s
    } else if s.take(from.len() as int) == from {
        to + replace_all(s.skip(from.len() as int), from, to)
    } else {
        seq![s[0]] + replace_all(s.drop_first(), from, to)
    }
}

/// Every occurrence of `from` replaced by `to`, from the left and without
/// overlaps, as `str::replace` with a non-empty pattern gives it.
pub(crate) fn replace_text(s: &str, from: &str, to: &str) -> (r: String)
    requires
        from@.len() > 0,
    ensures
        r@ == replace_all(s@, from@, to@),
{
    let cs = chars_of(s);
    let fs = chars_of(from);
    let ts = chars_of(to);
    let n = cs.len();
    let m = fs.len();
    let mut out: Vec<char> = Vec::new();
    let mut i: usize = 0;
    assert(cs@.skip(0) =~= cs@);
    while i < n && m <= n - i
        invariant
            n == cs@.len(),
            cs@ == s@,
            fs@ == from@,
            ts@ == to@,
            m == fs@.len(),
            m > 0,
            i <= n,
            replace_all(s@, from@, to@) == out@ + replace_all(cs@.skip(i as int), from@, to@),
        decreases n - i,
    {
        let ghost t = cs@.skip(i as int);
        if occurs_at(&cs, &fs, i) {
            proof {
                assert(t.take(m as int) =~= cs@.subrange(i as int, i + m));
                assert(t.skip(m as int) =~= cs@.skip(i + m));
            }
            let mut k: usize = 0;
            let ghost before = out@;
            while k < ts.len()
                invariant
                    k <= ts@.len(),
                    out@ == before + ts@.take(k as int),
                decreases ts@.len() - k,
            {
                out.push(ts[k]);
                assert(ts@.take(k + 1) =~= ts@.take(k as int).push(ts@[k as int]));
                k = k + 1;
            }
            assert(ts@.take(ts@.len() as int) =~= ts@);
            assert(out@ + replace_all(cs@.skip(i + m), from@, to@) =~= before + (to@ + replace_all(
                t.skip(m as int),
                from@,
                to@,
            )));
            i = i + m;
        } else {
            proof {
                assert(t.take(m as int) =~= cs@.subrange(i as int, i + m));
                assert(t.drop_first() =~= cs@.skip(i + 1));
                assert(t[0] == cs@[i as int]);
            }
            let ghost before = out@;
            out.push(cs[i]);
            assert(out@ + replace_all(cs@.skip(i + 1), from@, to@) =~= before + (seq![t[0]]
                + replace_all(t.drop_first(), from@, to@)));
            i = i + 1;
        }
    }
    // Fewer than `m` characters are left: they stay as they are.
    let ghost tail = cs@.skip(i as int);
    assert(replace_all(tail, from@, to@) == tail);
    let ghost before = out@;
    let mut k: usize = i;
    while k < n
        invariant
            n == cs@.len(),
            i <= k <= n,
            out@ == before + cs@.subrange(i as int, k as int),
        decreases n - k,
    {
        out.push(cs[k]);
        assert(cs@.subrange(i as int, k + 1) =~= cs@.subrange(i as int, k as int).push(
            cs@[k as int],
        ));
        k = k + 1;
    }
    assert(cs@.subrange(i as int, n as int) =~= tail);
    string_of(out.as_slice())
}

/// The decimal text of a signed integer: a minus sign before negatives.
pub open spec fn signed_decimal(n: int) -> Seq<char> {
    if n < 0 {
        "-"@ + decimal((-n) as nat)
    } else {
        decimal(n as nat)
    }
}

/// The decimal digits of an `i64`, after a minus sign when negative, as
/// `ToString` writes them.
pub(crate) fn i64_text(n: i64) -> (r: String)
    ensures
        r@ == signed_decimal(n as int),
{
    if n < 0 {
        let m: u64 = (0i128 - n as i128) as u64;
        let digits = u64_text(m);
        concat("-", digits.as_str())
    } else {
        u64_text(n as u64)
    }
}

/// The signed integer that `s` denotes: an optional `+` or `-` then one or
/// more decimal digits, with a value that fits in `i64`.
pub open spec fn parse_i64(s: Seq<char>) -> Option<i64> {
    let neg = s.len() > 0 && s[0] == '-';
    let d = if s.len() > 0 && (s[0] == '+' || s[0] == '-') {
        s.drop_first()
    } else {
        s
    };
    let v: int = if neg {
        -(digits_value(d) as int)
    } else {
        digits_value(d) as int
    };
    if d.len() > 0 && all_digits(d) && i64::MIN <= v <= i64::MAX {
        Some(v as i64)
    } else {
        None
    }
}

/// `i64::from_str`: an optional sign and decimal digits, failing on
/// anything else or when the value does not fit.
pub(crate) fn parse_signed(s: &str) -> (r: Option<i64>)
    ensures
        r == parse_i64(s@),
{
    let cs = chars_of(s);
    let neg = cs.len() > 0 && cs[0] == '-';
    let start: usize = if cs.len() > 0 && (cs[0] == '+' || cs[0] == '-') { 1 } else { 0 };
    proof {
        if start == 1 {
            assert(cs@.skip(1) =~= s@.drop_first());
        } else {
            assert(cs@.skip(0) =~= s@);
        }
    }
    let ghost d = if s@.len() > 0 && (s@[0] == '+' || s@[0] == '-') {
        s@.drop_first()
    } else {
        s@
    };
    assert(cs@.skip(start as int) == d);
    if start >= cs.len() {
        return None;
    }
    let limit: u128 = if neg { 0x8000_0000_0000_0000 } else { 0x7fff_ffff_ffff_ffff };
    let got = digits_upto(&cs, start, limit);
    match got {
        Some(v) => {
            assert(v as int == digits_value(d));
            if neg {
                let x = (0i128 - v as i128) as i64;
                assert(x as int == -(digits_value(d) as int));
                Some(x)
            } else {
                let x = v as i64;
                assert(x as int == digits_value(d) as int);
                Some(x)
            }
        },
        None => None,
    }
}

/// The index of the first occurrence of `p` in `s`.
pub open spec fn find_sub(s: Seq<char>, p: Seq<char>) -> Option<int>
    decreases s.len(),
{
    if s.len() < p.len() {
        None
    } else if s.take(p.len() as int) == p {
        Some(0)
    } else if s.len() == 0 {
        None
    } else {
        match find_sub(s.drop_first(), p) {
            Some(i) => Some(i + 1),
            None => None,
        }
    }
}

/// The index of the first occurrence of `p` in `s`.
pub fn find_text(s: &Vec<char>, p: &Vec<char>) -> (r: Option<usize>)
    ensures
        match r {
            Some(i) => find_sub(s@, p@) == Some(i as int),
            None => find_sub(s@, p@) is None,
        },
{
    let n = s.len();
    let m = p.len();
    let mut i: usize = 0;
    assert(s@.skip(0) =~= s@);
    loop
        invariant
            n == s@.len(),
            m == p@.len(),
            i <= n,
            find_sub(s@, p@) == match find_sub(s@.skip(i as int), p@) {
                Some(k) => Some(k + i),
                None => None,
            },
        decreases n - i,
    {
        let ghost t = s@.skip(i as int);
        if n - i < m {
            return None;
        }
        let mut k: usize = 0;
        assert(s@.subrange(i as int, i as int) =~= p@.take(0));
        while k < m && s[i + k] == p[k]
            invariant
                m == p@.len(),
                n == s@.len(),
                i + m <= n,
                k <= m,
                s@.subrange(i as int, i + k) == p@.take(k as int),
            decreases m - k,
        {
            proof {
                assert(s@.subrange(i as int, i + k + 1) =~= s@.subrange(i as int, i + k).push(s@[i + k]));
                assert(p@.take(k + 1) =~= p@.take(k as int).push(p@[k as int]));
            }
            k = k + 1;
        }
        proof {
            assert(t.take(m as int) =~= s@.subrange(i as int, i + m));
            assert(p@.take(m as int) =~= p@);
            if k < m {
                assert(t.take(m as int)[k as int] != p@[k as int]);
            }
        }
        if k == m {
            return Some(i);
        }
        if i == n {
            return None;
        }
        proof {
            assert(t.drop_first() =~= s@.skip(i + 1));
        }
        i = i + 1;
    }
}

/// The pieces with `sep` between neighbours, as `[String]::join` gives them.
pub(crate) fn join_strings(parts: &[String], sep: &str) -> (r: String)
    ensures
        r@ == join(strs_view(parts@), sep@),
{
    let ghost pv = strs_view(parts@);
    let n = parts.len();
    if n == 0 {
        proof {
            reveal_strlit("");
        }
        return "".to_owned();
    }
    let mut out: String = parts[0].clone();
    let mut i: usize = 1;
    assert(pv.take(1) =~= seq![pv[0]]);
    while i < n
        invariant
            n == parts@.len(),
            pv == strs_view(parts@),
            1 <= i <= n,
            out@ == join(pv.take(i as int), sep@),
        decreases n - i,
    {
        assert(pv.take(i + 1).drop_last() =~= pv.take(i as int));
        assert(pv.take(i + 1).last() == parts@[i as int]@);
        let with_sep = concat(out.as_str(), sep);
        out = concat(with_sep.as_str(), parts[i].as_str());
        i = i + 1;
    }
    assert(pv.take(n as int) =~= pv);
    out
}

/// `str::to_uppercase`. What Unicode's case mapping gives is named, not stated.
#[verifier::external_body]
pub(crate) fn to_upper(s: &str) -> (r: String)
    ensures
        r@ == upper_text(s@),
{
    s.to_uppercase()
}

/// `str::to_lowercase`. What Unicode's case mapping gives is named, not stated.
#[verifier::external_body]
pub(crate) fn to_lower(s: &str) -> (r: String)
    ensures
        r@ == lower_text(s@),
{
    s.to_lowercase()
}

/// The index of the first occurrence of `c`, counted in characters.
pub fn find_char_index(s: &str, c: char) -> (r: Option<usize>)
    ensures
        r matches Some(i) ==> find_char(s@, c) == Some(i as int),
        r is None ==> find_char(s@, c) is None,
{
    let v = chars_of(s);
    let mut i: usize = 0;
    proof {
        assert(v@.skip(0) =~= v@);
    }
    while i < v.len()
        invariant
            v@ == s@,
            i <= v@.len(),
            forall|j: int| 0 <= j < i ==> v@[j] != c,
            find_char(s@, c) == match find_char(v@.skip(i as int), c) {
                Some(k) => Some(k + i),
                None => None,
            },
        decreases v.len() - i,
    {
        let ghost t = v@.skip(i as int);
        proof {
            assert(t[0] == v@[i as int]);
            assert(t.drop_first() =~= v@.skip(i + 1));
        }
        if v[i] == c {
            return Some(i);
        }
        i = i + 1;
    }
    proof {
        assert(v@.skip(i as int).len() == 0);
    }
    None
}

/// Does `s` begin with `p`?
pub fn has_prefix(s: &str, p: &str) -> (r: bool)
    ensures
        r == starts_with(s@, p@),
{
    let a = chars_of(s);
    let b = chars_of(p);
    if b.len() > a.len() {
        return false;
    }
    let mut i: usize = 0;
    while i < b.len()
        invariant
            a@ == s@,
            b@ == p@,
            b.len() <= a.len(),
            i <= b.len(),
            a@.take(i as int) == b@.take(i as int),
        decreases b.len() - i,
    {
        if a[i] != b[i] {
            proof {
                assert(a@.take(b.len() as int)[i as int] != b@[i as int]);
            }
            return false;
        }
        proof {
            assert(a@.take(i + 1) =~= a@.take(i as int).push(a@[i as int]));
            assert(b@.take(i + 1) =~= b@.take(i as int).push(b@[i as int]));
        }
        i = i + 1;
    }
    proof {
        assert(b@.take(i as int) =~= b@);
    }
    true
}

/// The characters from `lo` up to `hi`, as a string.
pub fn substring(v: &Vec<char>, lo: usize, hi: usize) -> (r: String)
    requires
        lo <= hi <= v@.len(),
    ensures
        r@ == v@.subrange(lo as int, hi as int),
{
    let mut out: Vec<char> = Vec::new();
    let mut i: usize = lo;
    while i < hi
        invariant
            lo <= i <= hi,
            hi <= v@.len(),
            out@ == v@.subrange(lo as int, i as int),
        decreases hi - i,
    {
        out.push(v[i]);
        proof {
            assert(out@ =~= v@.subrange(lo as int, i + 1));
        }
        i = i + 1;
    }
    string_of(out.as_slice())
}

/// The rest of a text after its first `k` characters.
pub fn drop_chars(s: &str, k: usize) -> (r: String)
    requires
        k <= s@.len(),
    ensures
        r@ == s@.skip(k as int),
{
    let cs = chars_of(s);
    let r = substring(&cs, k, cs.len());
    assert(r@ =~= s@.skip(k as int));
    r
}

/// `a` followed by `b`.
pub fn concat(a: &str, b: &str) -> (r: String)
    ensures
        r@ == a@ + b@,
{
    let mut s = a.to_owned();
    s.append(b);
    s
}

/// `a`, `b` and `c` one after another.
pub fn concat3(a: &str, b: &str, c: &str) -> (r: String)
    ensures
        r@ == a@ + b@ + c@,
{
    let mut s = a.to_owned();
    s.append(b);
    s.append(c);
    s
}

/// A split always yields at least one piece.
pub proof fn lemma_split_nonempty(s: Seq<char>, c: char)
    ensures
        split_on(s, c).len() >= 1,
    decreases s.len(),
{
    if s.len() > 0 {
        lemma_split_nonempty(s.drop_first(), c);
    }
}

/// A text without the separator is a single piece.
pub proof fn lemma_split_without(s: Seq<char>, c: char)
    requires
        find_char(s, c) is None,
    ensures
        split_on(s, c) == seq![s],
    decreases s.len(),
{
    if s.len() > 0 {
        lemma_split_without(s.drop_first(), c);
        assert(seq![s[0]] + s.drop_first() =~= s);
        assert(split_on(s, c) =~= seq![s]);
    } else {
        assert(s =~= Seq::<char>::empty());
    }
}

/// The index found is in range and holds the character.
pub proof fn lemma_find_char(s: Seq<char>, c: char)
    ensures
        find_char(s, c) matches Some(i) ==> 0 <= i < s.len() && s[i] == c && forall|j: int|
            0 <= j < i ==> s[j] != c,
        find_char(s, c) is None ==> forall|j: int| 0 <= j < s.len() ==> s[j] != c,
    decreases s.len(),
{
    if s.len() > 0 {
        lemma_find_char(s.drop_first(), c);
        if s[0] != c {
            match find_char(s.drop_first(), c) {
                Some(i) => {
                    assert forall|j: int| 0 <= j < i + 1 implies s[j] != c by {
                        if j > 0 {
                            assert(s[j] == s.drop_first()[j - 1]);
                        }
                    }
                },
                None => {
                    assert forall|j: int| 0 <= j < s.len() implies s[j] != c by {
                        if j > 0 {
                            assert(s[j] == s.drop_first()[j - 1]);
                        }
                    }
                },
            }
        }
    }
}

} // verus!

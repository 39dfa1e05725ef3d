//! Verified text utilities: splitting on a delimiter, trimming whitespace,
//! reading unsigned integers and fixed-point decimals, and rendering decimal
//! numbers. These carry the character-level work of the matrix parser and the
//! resolution calculator.
use vstd::prelude::*;

verus! {

use vstd::string::StringExecFns;

/// The characters that count as whitespace when trimming (the Unicode
/// White_Space set).
pub open spec fn is_ws(c: char) -> bool {
    c == ' ' || c == '\t' || c == '\n' || c == '\r' || c == '\u{b}' || c == '\u{c}' || c == '\u{85}'
        || c == '\u{a0}' || c == '\u{1680}' || ('\u{2000}' <= c && c <= '\u{200a}') || c
        == '\u{2028}' || c == '\u{2029}' || c == '\u{202f}' || c == '\u{205f}' || c == '\u{3000}'
}

/// Whether `c` counts as whitespace when trimming.
pub fn ws_char(c: char) -> (r: bool)
    ensures
        r == is_ws(c),
{
    c == ' ' || c == '\t' || c == '\n' || c == '\r' || c == '\u{b}' || c == '\u{c}' || c == '\u{85}'
        || c == '\u{a0}' || c == '\u{1680}' || ('\u{2000}' <= c && c <= '\u{200a}') || c
        == '\u{2028}' || c == '\u{2029}' || c == '\u{202f}' || c == '\u{205f}' || c == '\u{3000}'
}

pub open spec fn is_digit(c: char) -> bool {
    '0' <= c && c <= '9'
}

/// The index of the first occurrence of `sep` in `s`, or `s.len()` when `s`
/// does not contain it.
pub open spec fn first_index(s: Seq<char>, sep: char) -> int
    decreases s.len(),
{
    if s.len() == 0 {
        0
    } else if s[0] == sep {
        0
    } else {
        1 + first_index(s.drop_first(), sep)
    }
}

pub proof fn lemma_first_index(s: Seq<char>, sep: char)
    ensures
        0 <= first_index(s, sep) <= s.len(),
        forall|j: int| 0 <= j < first_index(s, sep) ==> s[j] != sep,
        first_index(s, sep) < s.len() ==> s[first_index(s, sep)] == sep,
    decreases s.len(),
{
    if s.len() > 0 && s[0] != sep {
        lemma_first_index(s.drop_first(), sep);
        assert forall|j: int| 0 <= j < first_index(s, sep) implies s[j] != sep by {
            if j > 0 {
                assert(s.drop_first()[j - 1] != sep);
                assert(s[j] == s.drop_first()[j - 1]);
            }
        }
    }
}

/// `first_index` is the only position that is preceded by no separator and
/// either holds one or is the end.
pub proof fn lemma_first_index_unique(s: Seq<char>, sep: char, k: int)
    requires
        0 <= k <= s.len(),
        forall|j: int| 0 <= j < k ==> s[j] != sep,
        k < s.len() ==> s[k] == sep,
    ensures
        first_index(s, sep) == k,
    decreases s.len(),
{
    if s.len() > 0 && s[0] != sep {
        assert(s.drop_first().len() == s.len() - 1);
        assert(forall|j: int| 0 <= j < k - 1 ==> s.drop_first()[j] == s[j + 1] && s[j + 1] != sep);
        assert(k - 1 < s.drop_first().len() ==> s.drop_first()[k - 1] == s[k]);
        lemma_first_index_unique(s.drop_first(), sep, k - 1);
    }
}

/// The pieces of `s` between occurrences of `sep`: always one more piece than
/// there are separators, so the result is never empty.
pub open spec fn spec_split(s: Seq<char>, sep: char) -> Seq<Seq<char>>
    decreases s.len(),
{
    let i = first_index(s, sep);
    if 0 <= i < s.len() {
        seq![s.take(i)] + spec_split(s.skip(i + 1), sep)
    } else {
        seq![s]
    }
}

pub proof fn lemma_split_nonempty(s: Seq<char>, sep: char)
    ensures
        spec_split(s, sep).len() >= 1,
    decreases s.len(),
{
    lemma_first_index(s, sep);
    let i = first_index(s, sep);
    if i < s.len() {
        lemma_split_nonempty(s.skip(i + 1), sep);
    }
}

/// Split `s` on `sep`, returning the bounds of each piece: piece `k` is the
/// characters of `s` from `r[k].0` (inclusive) to `r[k].1` (exclusive).
pub fn split_ranges(s: &str, sep: char) -> (r: Vec<(usize, usize)>)
    ensures
        r@.len() == spec_split(s@, sep).len(),
        forall|k: int| 0 <= k < r@.len() ==> (#[trigger] r@[k]).0 <= r@[k].1 <= s@.len(),
        forall|k: int|
            0 <= k < r@.len() ==> s@.subrange(
                (#[trigger] r@[k]).0 as int,
                r@[k].1 as int,
            ) == spec_split(s@, sep)[k],
{
    let n = s.unicode_len();
    let mut r: Vec<(usize, usize)> = Vec::new();
    let mut start: usize = 0;
    let mut i: usize = 0;
    proof {
        assert(s@.skip(0) =~= s@);
        assert(r@.map_values(|t: (usize, usize)| s@.subrange(t.0 as int, t.1 as int))
            =~= Seq::<Seq<char>>::empty());
    }
    while i < n
        invariant
            0 <= start <= i <= n,
            n == s@.len(),
            forall|j: int| start <= j < i ==> s@[j] != sep,
            spec_split(s@, sep) == r@.map_values(
                |t: (usize, usize)| s@.subrange(t.0 as int, t.1 as int),
            ) + spec_split(s@.skip(start as int), sep),
            forall|k: int|
                0 <= k < r@.len() ==> #[trigger] r@[k].0 <= r@[k].1 <= s@.len(),
        decreases n - i,
    {
        if s.get_char(i) == sep {
            proof {
                let rest = s@.skip(start as int);
                assert(forall|j: int|
                    0 <= j < i - start ==> rest[j] == s@[j + start] && s@[j + start] != sep);
                assert(rest[i - start] == sep);
                lemma_first_index_unique(rest, sep, i - start);
                assert(rest.take(i - start) =~= s@.subrange(start as int, i as int));
                assert(rest.skip(i - start + 1) =~= s@.skip(i as int + 1));
                assert(spec_split(rest, sep) == seq![s@.subrange(start as int, i as int)]
                    + spec_split(s@.skip(i as int + 1), sep));
            }
            let ghost old_r = r@;
            r.push((start, i));
            proof {
                assert(r@.map_values(|t: (usize, usize)| s@.subrange(t.0 as int, t.1 as int))
                    =~= old_r.map_values(|t: (usize, usize)| s@.subrange(t.0 as int, t.1 as int))
                    + seq![s@.subrange(start as int, i as int)]);
            }
            start = i + 1;
        }
        i = i + 1;
    }
    proof {
        let rest = s@.skip(start as int);
        assert(forall|j: int|
            0 <= j < n - start ==> rest[j] == s@[j + start] && s@[j + start] != sep);
        lemma_first_index_unique(rest, sep, n - start);
        assert(spec_split(rest, sep) == seq![rest]);
        assert(rest =~= s@.subrange(start as int, n as int));
    }
    let ghost old_r = r@;
    r.push((start, n));
    proof {
        assert(r@.map_values(|t: (usize, usize)| s@.subrange(t.0 as int, t.1 as int)) =~= old_r
            .map_values(|t: (usize, usize)| s@.subrange(t.0 as int, t.1 as int)) + seq![
            s@.subrange(start as int, n as int),
        ]);
    }
    r
}


/// The number of leading whitespace characters of `s`.
pub open spec fn first_non_ws(s: Seq<char>) -> int
    decreases s.len(),
{
    if s.len() == 0 {
        0
    } else if !is_ws(s[0]) {
        0
    } else {
        1 + first_non_ws(s.drop_first())
    }
}

pub proof fn lemma_first_non_ws_unique(s: Seq<char>, k: int)
    requires
        0 <= k <= s.len(),
        forall|j: int| 0 <= j < k ==> is_ws(s[j]),
        k < s.len() ==> !is_ws(s[k]),
    ensures
        first_non_ws(s) == k,
    decreases s.len(),
{
    if s.len() > 0 && is_ws(s[0]) {
        assert(forall|j: int| 0 <= j < k - 1 ==> s.drop_first()[j] == s[j + 1] && is_ws(s[j + 1]));
        assert(k - 1 < s.drop_first().len() ==> s.drop_first()[k - 1] == s[k]);
        lemma_first_non_ws_unique(s.drop_first(), k - 1);
    }
}

/// `s` without its trailing whitespace.
pub open spec fn trim_end(s: Seq<char>) -> Seq<char>
    decreases s.len(),
{
    if s.len() > 0 && is_ws(s.last()) {
        trim_end(s.drop_last())
    } else {
        s
    }
}

pub proof fn lemma_trim_end_unique(s: Seq<char>, k: int)
    requires
        0 <= k <= s.len(),
        forall|j: int| k <= j < s.len() ==> is_ws(s[j]),
        k > 0 ==> !is_ws(s[k - 1]),
    ensures
        trim_end(s) == s.take(k),
    decreases s.len(),
{
    if s.len() > 0 && is_ws(s.last()) {
        assert(k < s.len());
        assert(forall|j: int| k <= j < s.len() - 1 ==> s.drop_last()[j] == s[j]);
        lemma_trim_end_unique(s.drop_last(), k);
        assert(s.drop_last().take(k) =~= s.take(k));
    } else {
        assert(s.take(k) =~= s);
    }
}

/// `s` without leading and trailing whitespace.
pub open spec fn spec_trim(s: Seq<char>) -> Seq<char> {
    let t = trim_end(s);
    t.skip(first_non_ws(t))
}

/// Narrow the range `[lo, hi)` of `s` past leading and trailing whitespace.
pub fn trim_range(s: &str, lo: usize, hi: usize) -> (r: (usize, usize))
    requires
        lo <= hi <= s@.len(),
    ensures
        lo <= r.0 <= r.1 <= hi,
        s@.subrange(r.0 as int, r.1 as int) == spec_trim(s@.subrange(lo as int, hi as int)),
{
    let ghost piece = s@.subrange(lo as int, hi as int);
    let mut e: usize = hi;
    while e > lo && ws_char(s.get_char(e - 1))
        invariant
            lo <= e <= hi <= s@.len(),
            forall|j: int| e <= j < hi ==> is_ws(s@[j]),
        decreases e,
    {
        e = e - 1;
    }
    proof {
        assert(forall|j: int|
            e - lo <= j < piece.len() ==> piece[j] == s@[j + lo] && is_ws(s@[j + lo]));
        assert(e - lo > 0 ==> piece[e - lo - 1] == s@[e - 1]);
        lemma_trim_end_unique(piece, e - lo);
    }
    let ghost t = trim_end(piece);
    let mut b: usize = lo;
    while b < e && ws_char(s.get_char(b))
        invariant
            lo <= b <= e <= s@.len(),
            forall|j: int| lo <= j < b ==> is_ws(s@[j]),
        decreases e - b,
    {
        b = b + 1;
    }
    proof {
        assert(t =~= s@.subrange(lo as int, e as int));
        assert(forall|j: int| 0 <= j < b - lo ==> t[j] == s@[j + lo] && is_ws(s@[j + lo]));
        assert(b - lo < t.len() ==> t[b - lo] == s@[b as int]);
        lemma_first_non_ws_unique(t, b - lo);
        assert(t.skip(b - lo) =~= s@.subrange(b as int, e as int));
    }
    (b, e)
}

/// The numeric value of a digit character (meaningful only for `is_digit`).
pub open spec fn digit_val(c: char) -> nat {
    if c == '1' {
        1
    } else if c == '2' {
        2
    } else if c == '3' {
        3
    } else if c == '4' {
        4
    } else if c == '5' {
        5
    } else if c == '6' {
        6
    } else if c == '7' {
        7
    } else if c == '8' {
        8
    } else if c == '9' {
        9
    } else {
        0
    }
}

/// The digit character for a value below ten.
pub open spec fn digit_char(d: nat) -> char {
    if d == 1 {
        '1'
    } else if d == 2 {
        '2'
    } else if d == 3 {
        '3'
    } else if d == 4 {
        '4'
    } else if d == 5 {
        '5'
    } else if d == 6 {
        '6'
    } else if d == 7 {
        '7'
    } else if d == 8 {
        '8'
    } else if d == 9 {
        '9'
    } else {
        '0'
    }
}

pub open spec fn all_digits(s: Seq<char>) -> bool {
    forall|j: int| 0 <= j < s.len() ==> is_digit(#[trigger] s[j])
}

/// The value of a digit string read in base ten.
pub open spec fn digits_value(s: Seq<char>) -> nat
    decreases s.len(),
{
    if s.len() == 0 {
        0
    } else {
        digits_value(s.drop_last()) * 10 + digit_val(s.last())
    }
}

/// A prefix of a digit string never reads as more than the whole string.
pub proof fn lemma_digits_value_prefix(s: Seq<char>, i: int)
    requires
        0 <= i <= s.len(),
    ensures
        digits_value(s.take(i)) <= digits_value(s),
    decreases s.len(),
{
    if i < s.len() && s.len() > 0 {
        assert(s.drop_last().take(i) =~= s.take(i));
        lemma_digits_value_prefix(s.drop_last(), i);
    } else {
        assert(s.take(i) =~= s);
    }
}

/// The digit value of a digit character.
pub fn digit_val_of(c: char) -> (r: u8)
    requires
        is_digit(c),
    ensures
        r == digit_val(c),
        r < 10,
{
    if c == '1' {
        1
    } else if c == '2' {
        2
    } else if c == '3' {
        3
    } else if c == '4' {
        4
    } else if c == '5' {
        5
    } else if c == '6' {
        6
    } else if c == '7' {
        7
    } else if c == '8' {
        8
    } else if c == '9' {
        9
    } else {
        0
    }
}

/// What reading the range as an unsigned 32-bit integer yields: a `+` sign is
/// allowed, then one or more digits; a value above the type's maximum fails.
pub open spec fn spec_parse_u32(s: Seq<char>) -> Option<u32> {
    let body = if s.len() > 0 && s[0] == '+' {
        s.drop_first()
    } else {
        s
    };
    if body.len() == 0 || !all_digits(body) || digits_value(body) > u32::MAX {
        None
    } else {
        Some(digits_value(body) as u32)
    }
}

/// Read the range `[lo, hi)` of `s` as an unsigned 32-bit integer.
pub fn parse_u32_range(s: &str, lo: usize, hi: usize) -> (r: Option<u32>)
    requires
        lo <= hi <= s@.len(),
    ensures
        r == spec_parse_u32(s@.subrange(lo as int, hi as int)),
{
    let ghost piece = s@.subrange(lo as int, hi as int);
    proof {
        assert(piece.len() > 0 ==> piece[0] == s@[lo as int]);
    }
    let mut b: usize = lo;
    if b < hi && s.get_char(b) == '+' {
        b = b + 1;
    }
    let ghost body = if piece.len() > 0 && piece[0] == '+' {
        piece.drop_first()
    } else {
        piece
    };
    proof {
        assert(body =~= s@.subrange(b as int, hi as int));
    }
    if b == hi {
        return None;
    }
    let mut acc: u64 = 0;
    let mut i: usize = b;
    while i < hi
        invariant
            lo <= b <= i <= hi <= s@.len(),
            piece == s@.subrange(lo as int, hi as int),
            body == (if piece.len() > 0 && piece[0] == '+' {
                piece.drop_first()
            } else {
                piece
            }),
            body == s@.subrange(b as int, hi as int),
            acc == digits_value(body.take(i - b)),
            acc <= u32::MAX,
            forall|j: int| 0 <= j < i - b ==> is_digit(#[trigger] body[j]),
        decreases hi - i,
    {
        let c = s.get_char(i);
        proof {
            assert(body[i - b] == s@[i as int]);
        }
        if !('0' <= c && c <= '9') {
            proof {
                assert(!is_digit(body[i - b]));
                assert(!all_digits(body));
            }
            return None;
        }
        let d = digit_val_of(c);
        let acc2: u64 = acc * 10 + (d as u64);
        proof {
            assert(body.take(i - b + 1).drop_last() =~= body.take(i - b));
            assert(body.take(i - b + 1).last() == body[i - b]);
            assert(acc2 == digits_value(body.take(i - b + 1)));
        }
        if acc2 > 0xFFFF_FFFF {
            proof {
                lemma_digits_value_prefix(body, i - b + 1);
            }
            return None;
        }
        acc = acc2;
        i = i + 1;
    }
    proof {
        assert(body.take(hi - b) =~= body);
    }
    Some(acc as u32)
}


pub open spec fn pow10(k: nat) -> nat
    decreases k,
{
    if k == 0 {
        1
    } else {
        10 * pow10((k - 1) as nat)
    }
}

pub proof fn lemma_pow10_pos(k: nat)
    ensures
        pow10(k) >= 1,
    decreases k,
{
    if k > 0 {
        lemma_pow10_pos((k - 1) as nat);
    }
}

/// The value of the fractional digits `fp` at four decimal places, further
/// digits truncated.
pub open spec fn frac4_val(fp: Seq<char>) -> nat {
    let t = if fp.len() > 4 {
        fp.take(4)
    } else {
        fp
    };
    digits_value(t) * pow10((4 - t.len()) as nat)
}

/// What reading the range as a plain decimal number yields, as a fixed-point
/// value scaled by ten thousand (four decimal places, further digits
/// truncated). The accepted forms are an optional sign followed by digits, a
/// dot and digits, with at least one digit; an integer part above a trillion
/// is out of the calculator's domain and fails.
pub open spec fn spec_dec4(s: Seq<char>) -> Option<int> {
    let neg = s.len() > 0 && s[0] == '-';
    let body = if s.len() > 0 && (s[0] == '-' || s[0] == '+') {
        s.drop_first()
    } else {
        s
    };
    let di = first_index(body, '.');
    let ip = body.take(di);
    let fp = if di < body.len() {
        body.skip(di + 1)
    } else {
        Seq::<char>::empty()
    };
    if ip.len() + fp.len() == 0 || !all_digits(ip) || !all_digits(fp) || digits_value(ip)
        > 1000000000000 {
        None
    } else {
        let mag = digits_value(ip) * 10000 + frac4_val(fp);
        Some(
            if neg {
                -(mag as int)
            } else {
                mag as int
            },
        )
    }
}

/// Read a digit range as a number, failing on a non-digit character or on a
/// value above `bound`.
pub fn digits_range_value(s: &str, lo: usize, hi: usize, bound: u64) -> (r: Option<u64>)
    requires
        lo <= hi <= s@.len(),
        bound <= 1000000000000,
    ensures
        ({
            let piece = s@.subrange(lo as int, hi as int);
            match r {
                None => !all_digits(piece) || digits_value(piece) > bound,
                Some(v) => all_digits(piece) && v == digits_value(piece) && v <= bound,
            }
        }),
{
    let ghost piece = s@.subrange(lo as int, hi as int);
    let mut acc: u64 = 0;
    let mut i: usize = lo;
    while i < hi
        invariant
            lo <= i <= hi <= s@.len(),
            bound <= 1000000000000,
            piece == s@.subrange(lo as int, hi as int),
            acc == digits_value(piece.take(i - lo)),
            acc <= bound,
            forall|j: int| 0 <= j < i - lo ==> is_digit(#[trigger] piece[j]),
        decreases hi - i,
    {
        let c = s.get_char(i);
        proof {
            assert(piece[i - lo] == s@[i as int]);
        }
        if !('0' <= c && c <= '9') {
            proof {
                assert(!is_digit(piece[i - lo]));
                assert(!all_digits(piece));
            }
            return None;
        }
        let d = digit_val_of(c);
        let acc2: u64 = acc * 10 + (d as u64);
        proof {
            assert(piece.take(i - lo + 1).drop_last() =~= piece.take(i - lo));
            assert(piece.take(i - lo + 1).last() == piece[i - lo]);
            assert(acc2 == digits_value(piece.take(i - lo + 1)));
        }
        if acc2 > bound {
            proof {
                lemma_digits_value_prefix(piece, i - lo + 1);
            }
            return None;
        }
        acc = acc2;
        i = i + 1;
    }
    proof {
        assert(piece.take(hi - lo) =~= piece);
    }
    Some(acc)
}

/// Read a fractional-digit range at four decimal places, failing on a
/// non-digit character.
pub fn frac4_range_value(s: &str, lo: usize, hi: usize) -> (r: Option<u64>)
    requires
        lo <= hi <= s@.len(),
    ensures
        ({
            let fp = s@.subrange(lo as int, hi as int);
            match r {
                None => !all_digits(fp),
                Some(v) => all_digits(fp) && v == frac4_val(fp) && v <= 9999,
            }
        }),
{
    let ghost fp = s@.subrange(lo as int, hi as int);
    let mut j: usize = lo;
    while j < hi
        invariant
            lo <= j <= hi <= s@.len(),
            fp == s@.subrange(lo as int, hi as int),
            forall|k: int| 0 <= k < j - lo ==> is_digit(#[trigger] fp[k]),
        decreases hi - j,
    {
        let c = s.get_char(j);
        proof {
            assert(fp[j - lo] == s@[j as int]);
        }
        if !('0' <= c && c <= '9') {
            proof {
                assert(!is_digit(fp[j - lo]));
                assert(!all_digits(fp));
            }
            return None;
        }
        j = j + 1;
    }
    let fp_len: usize = hi - lo;
    let take_n: usize = if fp_len > 4 {
        4
    } else {
        fp_len
    };
    let ghost t = if fp.len() > 4 {
        fp.take(4)
    } else {
        fp
    };
    proof {
        assert(t =~= s@.subrange(lo as int, lo as int + take_n as int));
        lemma_digits_value_bound(t);
    }
    // at most four digits never exceed the bound, and every character of the
    // range was already checked, so this read cannot fail
    let facc = match digits_range_value(s, lo, lo + take_n, 9999) {
        Some(v) => v,
        None => {
            proof {
                lemma_digits_value_bound(t);
            }
            return None;
        },
    };
    proof {
        assert(pow10(0) == 1);
        assert(pow10(1) == 10);
        assert(pow10(2) == 100);
        assert(pow10(3) == 1000);
        assert(pow10(4) == 10000);
        lemma_digits_value_small(t);
    }
    let v: u64 = if take_n == 0 {
        0
    } else if take_n == 1 {
        facc * 1000
    } else if take_n == 2 {
        facc * 100
    } else if take_n == 3 {
        facc * 10
    } else {
        facc
    };
    proof {
        assert(t.len() == take_n);
        assert(facc == digits_value(t));
        if take_n == 0 {
            assert(digits_value(t) == 0);
            assert(v == digits_value(t) * pow10((4 - t.len()) as nat)) by (nonlinear_arith)
                requires
                    v == 0,
                    digits_value(t) == 0,
            ;
        } else if take_n == 1 {
            assert(pow10((4 - t.len()) as nat) == 1000);
            assert(v == digits_value(t) * pow10((4 - t.len()) as nat)) by (nonlinear_arith)
                requires
                    v == facc * 1000,
                    facc == digits_value(t),
                    pow10((4 - t.len()) as nat) == 1000,
            ;
        } else if take_n == 2 {
            assert(pow10((4 - t.len()) as nat) == 100);
            assert(v == digits_value(t) * pow10((4 - t.len()) as nat)) by (nonlinear_arith)
                requires
                    v == facc * 100,
                    facc == digits_value(t),
                    pow10((4 - t.len()) as nat) == 100,
            ;
        } else if take_n == 3 {
            assert(pow10((4 - t.len()) as nat) == 10);
            assert(v == digits_value(t) * pow10((4 - t.len()) as nat)) by (nonlinear_arith)
                requires
                    v == facc * 10,
                    facc == digits_value(t),
                    pow10((4 - t.len()) as nat) == 10,
            ;
        } else {
            assert(pow10((4 - t.len()) as nat) == 1);
            assert(v == digits_value(t) * pow10((4 - t.len()) as nat)) by (nonlinear_arith)
                requires
                    v == facc,
                    facc == digits_value(t),
                    pow10((4 - t.len()) as nat) == 1,
            ;
        }
        assert(v == frac4_val(fp));
    }
    Some(v)
}

/// Read the range `[lo, hi)` of `s` as a fixed-point decimal with four
/// decimal places.
pub fn parse_dec4_range(s: &str, lo: usize, hi: usize) -> (r: Option<i64>)
    requires
        lo <= hi <= s@.len(),
    ensures
        match r {
            None => spec_dec4(s@.subrange(lo as int, hi as int)) is None,
            Some(v) => spec_dec4(s@.subrange(lo as int, hi as int)) == Some(v as int)
                && -10000000000009999 <= v <= 10000000000009999,
        },
{
    let ghost piece = s@.subrange(lo as int, hi as int);
    proof {
        assert(piece.len() > 0 ==> piece[0] == s@[lo as int]);
    }
    let mut b: usize = lo;
    let mut neg = false;
    if b < hi && (s.get_char(b) == '-' || s.get_char(b) == '+') {
        neg = s.get_char(b) == '-';
        b = b + 1;
    }
    let ghost body = if piece.len() > 0 && (piece[0] == '-' || piece[0] == '+') {
        piece.drop_first()
    } else {
        piece
    };
    proof {
        assert(body =~= s@.subrange(b as int, hi as int));
        assert(neg == (piece.len() > 0 && piece[0] == '-'));
    }
    // locate the first dot
    let mut dot: usize = b;
    while dot < hi && s.get_char(dot) != '.'
        invariant
            b <= dot <= hi <= s@.len(),
            forall|j: int| b <= j < dot ==> s@[j] != '.',
        decreases hi - dot,
    {
        dot = dot + 1;
    }
    proof {
        assert(forall|j: int| 0 <= j < dot - b ==> body[j] == s@[j + b] && s@[j + b] != '.');
        assert(dot < hi ==> body[dot - b] == s@[dot as int]);
        lemma_first_index_unique(body, '.', dot - b);
    }
    let ghost di = first_index(body, '.');
    let ghost ip = body.take(di);
    let ghost fp = if di < body.len() {
        body.skip(di + 1)
    } else {
        Seq::<char>::empty()
    };
    let fp_lo: usize = if dot < hi {
        dot + 1
    } else {
        hi
    };
    proof {
        assert(ip =~= s@.subrange(b as int, dot as int));
        assert(fp =~= s@.subrange(fp_lo as int, hi as int));
    }
    if b == dot && fp_lo == hi {
        // no digits at all
        return None;
    }
    let acc = match digits_range_value(s, b, dot, 1_000_000_000_000) {
        Some(v) => v,
        None => {
            return None;
        },
    };
    let facc = match frac4_range_value(s, fp_lo, hi) {
        Some(v) => v,
        None => {
            return None;
        },
    };
    let mag: u64 = acc * 10000 + facc;
    proof {
        assert(mag == digits_value(ip) * 10000 + frac4_val(fp));
    }
    if neg {
        Some(-(mag as i64))
    } else {
        Some(mag as i64)
    }
}

/// A digit string of at most four characters reads as less than ten thousand.
pub proof fn lemma_digits_value_bound(s: Seq<char>)
    requires
        s.len() <= 4,
    ensures
        digits_value(s) <= 9999,
{
    lemma_digits_value_small(s);
    assert(pow10(0) == 1);
    assert(pow10(1) == 10);
    assert(pow10(2) == 100);
    assert(pow10(3) == 1000);
    assert(pow10(4) == 10000);
}

/// A digit string reads as less than ten to its length.
pub proof fn lemma_digits_value_small(s: Seq<char>)
    ensures
        digits_value(s) < pow10(s.len()),
    decreases s.len(),
{
    if s.len() > 0 {
        lemma_digits_value_small(s.drop_last());
    }
}


/// The single-character text of a digit value.
pub fn digit_str(d: u8) -> (r: &'static str)
    requires
        d < 10,
    ensures
        r@ == seq![digit_char(d as nat)],
{
    if d == 1 {
        proof {
            reveal_strlit("1");
            assert("1"@ =~= seq![digit_char(1)]);
        }
        "1"
    } else if d == 2 {
        proof {
            reveal_strlit("2");
            assert("2"@ =~= seq![digit_char(2)]);
        }
        "2"
    } else if d == 3 {
        proof {
            reveal_strlit("3");
            assert("3"@ =~= seq![digit_char(3)]);
        }
        "3"
    } else if d == 4 {
        proof {
            reveal_strlit("4");
            assert("4"@ =~= seq![digit_char(4)]);
        }
        "4"
    } else if d == 5 {
        proof {
            reveal_strlit("5");
            assert("5"@ =~= seq![digit_char(5)]);
        }
        "5"
    } else if d == 6 {
        proof {
            reveal_strlit("6");
            assert("6"@ =~= seq![digit_char(6)]);
        }
        "6"
    } else if d == 7 {
        proof {
            reveal_strlit("7");
            assert("7"@ =~= seq![digit_char(7)]);
        }
        "7"
    } else if d == 8 {
        proof {
            reveal_strlit("8");
            assert("8"@ =~= seq![digit_char(8)]);
        }
        "8"
    } else if d == 9 {
        proof {
            reveal_strlit("9");
            assert("9"@ =~= seq![digit_char(9)]);
        }
        "9"
    } else {
        proof {
            reveal_strlit("0");
            assert("0"@ =~= seq![digit_char(0)]);
        }
        "0"
    }
}

/// The base-ten digit string of a number.
pub open spec fn digits_of(n: nat) -> Seq<char>
    decreases n,
{
    if n < 10 {
        seq![digit_char(n)]
    } else {
        digits_of(n / 10) + seq![digit_char(n % 10)]
    }
}

/// The characters of a sequence of digit values, read back to front.
pub open spec fn rev_digit_chars(s: Seq<u8>) -> Seq<char> {
    s.map_values(|d: u8| digit_char(d as nat)).reverse()
}

/// Append the base-ten rendering of `n` to `out`.
pub fn append_u128_digits(out: &mut String, n: u128)
    ensures
        final(out)@ == old(out)@ + digits_of(n as nat),
{
    let mut tmp: Vec<u8> = Vec::new();
    let mut m: u128 = n;
    proof {
        assert(rev_digit_chars(tmp@) =~= Seq::<char>::empty());
        assert(digits_of(n as nat) =~= digits_of(m as nat) + rev_digit_chars(tmp@));
    }
    while m >= 10
        invariant
            digits_of(n as nat) == digits_of(m as nat) + rev_digit_chars(tmp@),
            forall|k: int| 0 <= k < tmp@.len() ==> #[trigger] tmp@[k] < 10,
        decreases m,
    {
        let d: u8 = (m % 10) as u8;
        let ghost old_tmp = tmp@;
        tmp.push(d);
        m = m / 10;
        proof {
            assert(rev_digit_chars(old_tmp.push(d)) =~= seq![digit_char(d as nat)]
                + rev_digit_chars(old_tmp));
            assert(digits_of((10 * (m as nat) + d as nat) as nat) == digits_of(m as nat) + seq![
                digit_char(d as nat),
            ]);
        }
    }
    out.append(digit_str(m as u8));
    let ghost mid = out@;
    proof {
        assert(mid == old(out)@ + seq![digit_char(m as nat)]);
    }
    let mut j: usize = tmp.len();
    while j > 0
        invariant
            j <= tmp.len(),
            out@ == mid + rev_digit_chars(tmp@).take(tmp.len() - j),
            mid == old(out)@ + seq![digit_char(m as nat)],
            digits_of(n as nat) == digits_of(m as nat) + rev_digit_chars(tmp@),
            m < 10,
            forall|k: int| 0 <= k < tmp@.len() ==> #[trigger] tmp@[k] < 10,
        decreases j,
    {
        j = j - 1;
        out.append(digit_str(tmp[j]));
        proof {
            let rc = rev_digit_chars(tmp@);
            assert(rc[tmp.len() - j - 1] == digit_char(tmp@[j as int] as nat));
            assert(rc.take(tmp.len() - j) =~= rc.take(tmp.len() - j - 1) + seq![
                digit_char(tmp@[j as int] as nat),
            ]);
        }
    }
    proof {
        assert(rev_digit_chars(tmp@).take(tmp.len() - 0) =~= rev_digit_chars(tmp@));
        assert(out@ == old(out)@ + digits_of(n as nat));
    }
}

/// The first `k` fractional digits of `fp` (which is below ten to the `k`),
/// most significant first, trailing zeros dropped.
pub open spec fn frac_digits(fp: nat, k: nat) -> Seq<char>
    decreases k,
{
    if k == 0 || fp == 0 {
        Seq::<char>::empty()
    } else {
        let p = pow10((k - 1) as nat);
        seq![digit_char(fp / p)] + frac_digits(fp % p, (k - 1) as nat)
    }
}

/// Append the eight fractional digits of `fp`, trailing zeros dropped.
pub fn append_frac8(out: &mut String, fp: u64)
    requires
        0 < fp < 100000000,
    ensures
        final(out)@ == old(out)@ + frac_digits(fp as nat, 8),
{
    let mut p: u64 = 10000000;
    let mut f: u64 = fp;
    let ghost mut k: nat = 8;
    proof {
        assert(pow10(0) == 1);
        assert(pow10(1) == 10);
        assert(pow10(2) == 100);
        assert(pow10(3) == 1000);
        assert(pow10(4) == 10000);
        assert(pow10(5) == 100000);
        assert(pow10(6) == 1000000);
        assert(pow10(7) == 10000000);
        assert(pow10(8) == 100000000);
    }
    while f > 0
        invariant
            1 <= k <= 8 || f == 0,
            k <= 8,
            f < pow10(k),
            k >= 1 ==> p == pow10((k - 1) as nat),
            out@ + frac_digits(f as nat, k) == old(out)@ + frac_digits(fp as nat, 8),
        decreases k,
    {
        proof {
            lemma_pow10_pos((k - 1) as nat);
            assert(pow10(k) == 10 * pow10((k - 1) as nat));
            assert(f / p < 10) by (nonlinear_arith)
                requires
                    0 < p,
                    f < 10 * p,
            ;
        }
        let d: u8 = (f / p) as u8;
        out.append(digit_str(d));
        proof {
            assert(frac_digits(f as nat, k) == seq![digit_char(d as nat)] + frac_digits(
                (f as nat) % (p as nat),
                (k - 1) as nat,
            ));
            assert((f as nat) % (p as nat) < pow10((k - 1) as nat)) by (nonlinear_arith)
                requires
                    0 < p,
                    pow10((k - 1) as nat) == p,
            ;
        }
        f = f % p;
        proof {
            k = (k - 1) as nat;
        }
        if p >= 10 {
            p = p / 10;
        }
        proof {
            if k >= 1 {
                assert(pow10(k) == 10 * pow10((k - 1) as nat));
            }
        }
    }
    proof {
        assert(frac_digits(0, k) =~= Seq::<char>::empty());
        assert(out@ + Seq::<char>::empty() =~= out@);
    }
}

/// The decimal rendering of a value scaled by ten to the eighth: the integer
/// part, then a dot and the fractional digits when they are not all zero.
pub open spec fn spec_render_scaled8(v: nat) -> Seq<char> {
    if v % 100000000 == 0 {
        digits_of(v / 100000000)
    } else {
        digits_of(v / 100000000) + seq!['.'] + frac_digits(v % 100000000, 8)
    }
}

/// Append the decimal rendering of a value scaled by ten to the eighth.
pub fn append_scaled8(out: &mut String, v: u128)
    ensures
        final(out)@ == old(out)@ + spec_render_scaled8(v as nat),
{
    let ip: u128 = v / 100000000;
    let fp: u64 = (v % 100000000) as u64;
    append_u128_digits(out, ip);
    if fp > 0 {
        proof {
            reveal_strlit(".");
            assert("."@ =~= seq!['.']);
        }
        out.append(".");
        append_frac8(out, fp);
    }
}

/// Whether two strings hold the same characters.
pub fn str_eq(a: &str, b: &str) -> (r: bool)
    ensures
        r == (a@ == b@),
{
    let x = a.to_owned();
    let y = b.to_owned();
    x == y
}

} // verus!

//! Time values as whole microseconds: parsing `HH:MM:SS.ffffff` stamps and
//! plain decimal seconds, and printing seconds with two decimals.
use vstd::prelude::*;
use vstd::string::*;

verus! {

/// Microseconds in one second.
pub const MICROS_PER_SECOND: u64 = 1_000_000;

pub open spec fn is_digit(c: char) -> bool {
    '0' <= c && c <= '9'
}

pub open spec fn all_digits(s: Seq<char>) -> bool {
    forall|i: int| 0 <= i < s.len() ==> is_digit(#[trigger] s[i])
}

pub open spec fn has_no(s: Seq<char>, sep: char) -> bool {
    forall|i: int| 0 <= i < s.len() ==> #[trigger] s[i] != sep
}

pub open spec fn digit_value(c: char) -> int {
    c as int - '0' as int
}

/// The number written by a run of decimal digits (most significant first).
pub open spec fn digits_value(s: Seq<char>) -> int
    decreases s.len(),
{
    if s.len() == 0 {
        0
    } else {
        digits_value(s.drop_last()) * 10 + digit_value(s.last())
    }
}

/// The pieces of `s` between occurrences of `sep`, as `str::split` yields them.
pub open spec fn split_on(s: Seq<char>, sep: char) -> Seq<Seq<char>>
    decreases s.len(),
{
    if s.len() == 0 {
        seq![Seq::<char>::empty()]
    } else {
        let rest = split_on(s.drop_last(), sep);
        if s.last() == sep {
            rest.push(Seq::<char>::empty())
        } else {
            rest.update(rest.len() - 1, rest.last().push(s.last()))
        }
    }
}

/// The first six fractional digits, padded with zeros to six.
pub open spec fn pad6(f: Seq<char>) -> Seq<char> {
    if f.len() >= 6 {
        f.take(6)
    } else {
        f + Seq::new((6 - f.len()) as nat, |i: int| '0')
    }
}

/// The microseconds written by the digits after a decimal point (finer digits are dropped).
pub open spec fn frac_micros(f: Seq<char>) -> int {
    digits_value(pad6(f))
}

pub open spec fn is_number(s: Seq<char>) -> bool {
    s.len() > 0 && all_digits(s)
}

/// Microseconds written by decimal seconds: `S` or `S.f` with digits only.
pub open spec fn decimal_micros(s: Seq<char>) -> Option<int> {
    let p = split_on(s, '.');
    if p.len() == 1 && is_number(p[0]) {
        Some(digits_value(p[0]) * 1_000_000)
    } else if p.len() == 2 && is_number(p[0]) && all_digits(p[1]) {
        Some(digits_value(p[0]) * 1_000_000 + frac_micros(p[1]))
    } else {
        None
    }
}

/// Microseconds written by an `H:M:S` stamp, where `S` may carry a fraction:
/// hours × 3600 + minutes × 60 + seconds.
pub open spec fn timecode_micros(s: Seq<char>) -> Option<int> {
    let p = split_on(s, ':');
    if p.len() == 3 && is_number(p[0]) && is_number(p[1]) && decimal_micros(p[2]) is Some {
        Some(
            digits_value(p[0]) * 3_600_000_000 + digits_value(p[1]) * 60_000_000
                + decimal_micros(p[2])->0,
        )
    } else {
        None
    }
}

/// A mathematical value as a `u64`, where it fits.
pub open spec fn fit_u64(v: Option<int>) -> Option<u64> {
    match v {
        Some(x) => if 0 <= x <= u64::MAX {
            Some(x as u64)
        } else {
            None
        },
        None => None,
    }
}

pub open spec fn digit_char(d: int) -> char {
    if d == 0 {
        '0'
    } else if d == 1 {
        '1'
    } else if d == 2 {
        '2'
    } else if d == 3 {
        '3'
    } else if d == 4 {
        '4'
    } else if d == 5 {
        '5'
    } else if d == 6 {
        '6'
    } else if d == 7 {
        '7'
    } else if d == 8 {
        '8'
    } else {
        '9'
    }
}

/// The decimal digits of `n`, without leading zeros.
pub open spec fn decimal_digits(n: nat) -> Seq<char>
    decreases n,
{
    if n < 10 {
        seq![digit_char(n as int)]
    } else {
        decimal_digits(n / 10).push(digit_char((n % 10) as int))
    }
}

/// `n` rounded to the nearest multiple of `10_000` (hundredths of a second), halves up.
pub open spec fn centis_of(micros: nat) -> nat {
    (micros + 5000) as nat / 10000
}

/// Seconds with exactly two decimals, for a count of hundredths of a second.
pub open spec fn centis_text(c: nat) -> Seq<char> {
    decimal_digits(c / 100) + seq!['.', digit_char(((c % 100) / 10) as int), digit_char((c % 10) as int)]
}

proof fn lemma_digit_char(d: int)
    requires
        0 <= d < 10,
    ensures
        is_digit(digit_char(d)),
        digit_value(digit_char(d)) == d,
{
}

proof fn lemma_decimal_digits(n: nat)
    ensures
        is_number(decimal_digits(n)),
        has_no(decimal_digits(n), '.'),
        digits_value(decimal_digits(n)) == n,
    decreases n,
{
    if n < 10 {
        lemma_digit_char(n as int);
        let d = decimal_digits(n);
        assert(d.drop_last() =~= Seq::<char>::empty());
        assert(digits_value(Seq::<char>::empty()) == 0);
        assert(digits_value(d) == digits_value(d.drop_last()) * 10 + digit_value(d.last()));
    } else {
        lemma_decimal_digits(n / 10);
        lemma_digit_char((n % 10) as int);
        let d = decimal_digits(n);
        assert(d.drop_last() =~= decimal_digits(n / 10));
        assert(d.last() == digit_char((n % 10) as int));
        assert(digits_value(d) == digits_value(d.drop_last()) * 10 + digit_value(d.last()));
        assert(n == (n / 10) * 10 + n % 10);
        assert(has_no(d, '.')) by {
            assert forall|i: int| 0 <= i < d.len() implies #[trigger] d[i] != '.' by {
                if i < d.len() - 1 {
                    assert(d[i] == d.drop_last()[i]);
                }
            }
        }
        assert(all_digits(d)) by {
            assert forall|i: int| 0 <= i < d.len() implies is_digit(#[trigger] d[i]) by {
                if i < d.len() - 1 {
                    assert(d[i] == d.drop_last()[i]);
                }
            }
        }
    }
}

/// Appending a run without `sep` extends the last piece.
proof fn lemma_split_append(p: Seq<char>, b: Seq<char>, sep: char)
    requires
        has_no(b, sep),
    ensures
        split_on(p + b, sep) == split_on(p, sep).update(
            split_on(p, sep).len() - 1,
            split_on(p, sep).last() + b,
        ),
        split_on(p + b, sep).len() == split_on(p, sep).len(),
    decreases b.len(),
{
    lemma_split_nonempty(p, sep);
    let sp = split_on(p, sep);
    if b.len() == 0 {
        assert(p + b =~= p);
        assert(sp.last() + b =~= sp.last());
        assert(sp.update(sp.len() - 1, sp.last()) =~= sp);
    } else {
        let b0 = b.drop_last();
        lemma_split_append(p, b0, sep);
        assert((p + b).drop_last() =~= p + b0);
        assert((p + b).last() == b.last());
        assert(sp.last() + b0 + seq![b.last()] =~= sp.last() + b);
        let r = split_on(p + b0, sep);
        assert(r.last() == sp.last() + b0);
        assert(r.last().push(b.last()) =~= sp.last() + b);
        assert(r.update(r.len() - 1, r.last().push(b.last())) =~= sp.update(
            sp.len() - 1,
            sp.last() + b,
        ));
    }
}

proof fn lemma_split_nonempty(s: Seq<char>, sep: char)
    ensures
        split_on(s, sep).len() >= 1,
    decreases s.len(),
{
    if s.len() > 0 {
        lemma_split_nonempty(s.drop_last(), sep);
    }
}

/// The text of `n` hundredths of a second splits at its one point.
proof fn lemma_centis_text_split(c: nat)
    ensures
        split_on(centis_text(c), '.') == seq![
            decimal_digits(c / 100),
            seq![digit_char(((c % 100) / 10) as int), digit_char((c % 10) as int)],
        ],
{
    let w = decimal_digits(c / 100);
    let f = seq![digit_char(((c % 100) / 10) as int), digit_char((c % 10) as int)];
    lemma_decimal_digits(c / 100);
    lemma_digit_char(((c % 100) / 10) as int);
    lemma_digit_char((c % 10) as int);
    let e = Seq::<char>::empty();
    lemma_split_append(e, w, '.');
    assert(e + w =~= w);
    assert(split_on(w, '.') =~= seq![w]);
    let wd = w.push('.');
    assert(wd.drop_last() =~= w);
    assert(split_on(wd, '.') =~= seq![w, e]);
    lemma_split_append(wd, f, '.');
    assert(wd + f =~= centis_text(c));
    assert(e + f =~= f);
    assert(seq![w, e].update(1, e + f) =~= seq![w, f]);
}

/// Printing a time with two decimals and reading it back moves it by at most
/// half a hundredth of a second.
pub proof fn lemma_two_decimal_round_trip(micros: u64)
    ensures
        decimal_micros(centis_text(centis_of(micros as nat))) is Some,
        decimal_micros(centis_text(centis_of(micros as nat)))->0 == centis_of(micros as nat) * 10000,
        -5000 < decimal_micros(centis_text(centis_of(micros as nat)))->0 - micros <= 5000,
{
    let c = centis_of(micros as nat);
    lemma_centis_text_split(c);
    lemma_decimal_digits(c / 100);
    let d1 = ((c % 100) / 10) as int;
    let d2 = (c % 10) as int;
    lemma_digit_char(d1);
    lemma_digit_char(d2);
    let f = seq![digit_char(d1), digit_char(d2)];
    let padded = pad6(f);
    assert(padded =~= seq![digit_char(d1), digit_char(d2), '0', '0', '0', '0']);
    assert(padded.drop_last() =~= seq![digit_char(d1), digit_char(d2), '0', '0', '0']);
    assert(padded.drop_last().drop_last() =~= seq![digit_char(d1), digit_char(d2), '0', '0']);
    assert(padded.drop_last().drop_last().drop_last() =~= seq![digit_char(d1), digit_char(d2), '0']);
    assert(padded.drop_last().drop_last().drop_last().drop_last() =~= seq![digit_char(d1), digit_char(d2)]);
    assert(f.drop_last() =~= seq![digit_char(d1)]);
    assert(seq![digit_char(d1)].drop_last() =~= Seq::<char>::empty());
    assert(digits_value(Seq::<char>::empty()) == 0);
    assert(digits_value(seq![digit_char(d1)]) == d1);
    assert(digits_value(f) == d1 * 10 + d2);
    assert(digits_value(padded.drop_last().drop_last().drop_last()) == (d1 * 10 + d2) * 10);
    assert(digits_value(padded.drop_last().drop_last()) == (d1 * 10 + d2) * 100);
    assert(digits_value(padded.drop_last()) == (d1 * 10 + d2) * 1000);
    assert(frac_micros(f) == (d1 * 10 + d2) * 10000);
    assert(all_digits(f));
    assert(c == (c / 100) * 100 + d1 * 10 + d2);
}

proof fn lemma_digits_prefix_le(s: Seq<char>, i: int)
    requires
        all_digits(s),
        0 <= i <= s.len(),
    ensures
        0 <= digits_value(s.take(i)) <= digits_value(s),
    decreases s.len(),
{
    if i == s.len() {
        assert(s.take(i) =~= s);
        lemma_digits_nonneg(s);
    } else {
        let s0 = s.drop_last();
        assert(all_digits(s0));
        lemma_digits_prefix_le(s0, i);
        assert(s0.take(i) =~= s.take(i));
    }
}

proof fn lemma_digits_nonneg(s: Seq<char>)
    requires
        all_digits(s),
    ensures
        digits_value(s) >= 0,
    decreases s.len(),
{
    if s.len() > 0 {
        assert(all_digits(s.drop_last()));
        lemma_digits_nonneg(s.drop_last());
    }
}

proof fn lemma_digits_split_view(s: Seq<char>, k: int)
    requires
        0 <= k < s.len(),
    ensures
        s.take(k + 1).drop_last() == s.take(k),
        s.take(k + 1).last() == s[k],
{
    assert(s.take(k + 1).drop_last() =~= s.take(k));
}

/// Splits the characters of `s` at each `sep`.
pub fn split_chars(s: &str, sep: char) -> (r: Vec<Vec<char>>)
    ensures
        r@.len() >= 1,
        r@.len() == split_on(s@, sep).len(),
        forall|i: int| 0 <= i < r@.len() ==> #[trigger] r@[i]@ == split_on(s@, sep)[i],
{
    let n = s.unicode_len();
    let mut out: Vec<Vec<char>> = Vec::new();
    let mut cur: Vec<char> = Vec::new();
    let mut k: usize = 0;
    assert(s@.take(0) =~= Seq::<char>::empty());
    while k < n
        invariant
            n == s@.len(),
            0 <= k <= n,
            split_on(s@.take(k as int), sep).len() == out@.len() + 1,
            forall|i: int| 0 <= i < out@.len() ==> #[trigger] out@[i]@ == split_on(s@.take(k as int), sep)[i],
            cur@ == split_on(s@.take(k as int), sep).last(),
        decreases n - k,
    {
        let c = s.get_char(k);
        proof {
            lemma_digits_split_view(s@, k as int);
        }
        if c == sep {
            out.push(cur);
            cur = Vec::new();
        } else {
            cur.push(c);
        }
        k = k + 1;
    }
    assert(s@.take(n as int) =~= s@);
    out.push(cur);
    out
}

fn char_digit(c: char) -> (r: Option<u64>)
    ensures
        r == (if is_digit(c) {
            Some(digit_value(c) as u64)
        } else {
            None
        }),
{
    if '0' <= c && c <= '9' {
        Some((c as u32 - '0' as u32) as u64)
    } else {
        None
    }
}

fn is_all_digits(v: &Vec<char>) -> (r: bool)
    ensures
        r == all_digits(v@),
{
    let mut i: usize = 0;
    while i < v.len()
        invariant
            0 <= i <= v@.len(),
            forall|j: int| 0 <= j < i ==> is_digit(#[trigger] v@[j]),
        decreases v@.len() - i,
    {
        if char_digit(v[i]).is_none() {
            return false;
        }
        i = i + 1;
    }
    true
}

/// Reads a non-empty run of decimal digits.
fn parse_number(v: &Vec<char>) -> (r: Option<u64>)
    ensures
        r == (if is_number(v@) {
            fit_u64(Some(digits_value(v@)))
        } else {
            None
        }),
{
    if v.len() == 0 || !is_all_digits(v) {
        return None;
    }
    let mut acc: u64 = 0;
    let mut i: usize = 0;
    assert(v@.take(0) =~= Seq::<char>::empty());
    while i < v.len()
        invariant
            0 <= i <= v@.len(),
            all_digits(v@),
            acc == digits_value(v@.take(i as int)),
        decreases v@.len() - i,
    {
        proof {
            lemma_digits_split_view(v@, i as int);
        }
        let d = char_digit(v[i]).unwrap();
        let next = acc.checked_mul(10);
        if next.is_none() {
            proof {
                lemma_digits_prefix_le(v@, i as int + 1);
            }
            return None;
        }
        let next = next.unwrap().checked_add(d);
        if next.is_none() {
            proof {
                lemma_digits_prefix_le(v@, i as int + 1);
            }
            return None;
        }
        acc = next.unwrap();
        i = i + 1;
    }
    assert(v@.take(v@.len() as int) =~= v@);
    Some(acc)
}

/// Reads the digits after a decimal point as microseconds.
fn parse_fraction(v: &Vec<char>) -> (r: Option<u64>)
    ensures
        r == (if all_digits(v@) {
            Some(frac_micros(v@) as u64)
        } else {
            None
        }),
        all_digits(v@) ==> 0 <= frac_micros(v@) < 1_000_000,
{
    if !is_all_digits(v) {
        return None;
    }
    proof {
        lemma_pad6_digits(v@);
        lemma_digits_nonneg(pad6(v@));
    }
    let ghost p = pad6(v@);
    assert(p.len() == 6);
    let mut acc: u64 = 0;
    let mut bound: u64 = 1;
    let mut k: usize = 0;
    assert(p.take(0) =~= Seq::<char>::empty());
    while k < 6
        invariant
            0 <= k <= 6,
            p == pad6(v@),
            all_digits(v@),
            p.len() == 6,
            acc == digits_value(p.take(k as int)),
            acc < bound,
            bound == (if k == 0 {
                1u64
            } else if k == 1 {
                10u64
            } else if k == 2 {
                100u64
            } else if k == 3 {
                1000u64
            } else if k == 4 {
                10000u64
            } else if k == 5 {
                100000u64
            } else {
                1000000u64
            }),
        decreases 6 - k,
    {
        proof {
            lemma_digits_split_view(p, k as int);
        }
        let c = if k < v.len() {
            v[k]
        } else {
            '0'
        };
        assert(c == p[k as int]);
        let d = char_digit(c).unwrap();
        acc = acc * 10 + d;
        bound = bound * 10;
        k = k + 1;
    }
    assert(p.take(6) =~= p);
    Some(acc)
}

fn decimal_of_pieces(p: &Vec<Vec<char>>) -> (r: Option<u64>)
    requires
        p@.len() >= 1,
    ensures
        r == fit_u64(
            if p@.len() == 1 && is_number(p@[0]@) {
                Some(digits_value(p@[0]@) * 1_000_000)
            } else if p@.len() == 2 && is_number(p@[0]@) && all_digits(p@[1]@) {
                Some(digits_value(p@[0]@) * 1_000_000 + frac_micros(p@[1]@))
            } else {
                None
            },
        ),
{
    if p.len() > 2 {
        return None;
    }
    let whole = parse_number(&p[0]);
    let frac: u64 = if p.len() == 2 {
        match parse_fraction(&p[1]) {
            Some(f) => f,
            None => {
                return None;
            },
        }
    } else {
        0
    };
    if !is_all_digits(&p[0]) || p[0].len() == 0 {
        return None;
    }
    proof {
        lemma_digits_nonneg(p@[0]@);
        if p@.len() == 2 {
            lemma_pad6_digits(p@[1]@);
            lemma_digits_nonneg(pad6(p@[1]@));
        }
    }
    match whole {
        None => {
            assert(digits_value(p@[0]@) > u64::MAX);
            None
        },
        Some(w) => match w.checked_mul(MICROS_PER_SECOND) {
            None => None,
            Some(m) => m.checked_add(frac),
        },
    }
}

proof fn lemma_pad6_digits(f: Seq<char>)
    requires
        all_digits(f),
    ensures
        all_digits(pad6(f)),
{
    let p = pad6(f);
    assert forall|i: int| 0 <= i < p.len() implies is_digit(#[trigger] p[i]) by {
        if i < f.len() {
            assert(p[i] == f[i]);
        }
    }
}

/// Reads decimal seconds (`12`, `12.5`, `12.345678`) as microseconds; digits
/// past the sixth decimal are dropped.
pub fn parse_decimal_seconds(text: &str) -> (r: Option<u64>)
    ensures
        r == fit_u64(decimal_micros(text@)),
{
    let p = split_chars(text, '.');
    decimal_of_pieces(&p)
}

/// Reads an `HH:MM:SS.ffffff` stamp as microseconds: hours × 3600 + minutes × 60
/// + seconds. `None` where the text has another shape or the value exceeds `u64`.
pub fn parse_time_to_seconds(time_str: &str) -> (r: Option<u64>)
    ensures
        r == fit_u64(timecode_micros(time_str@)),
{
    let p = split_chars(time_str, ':');
    if p.len() != 3 {
        return None;
    }
    let ghost sp = split_on(time_str@, ':');
    let h = parse_number(&p[0]);
    let m = parse_number(&p[1]);
    let ghost secs_text = p@[2]@;
    let sp2 = split_chars_vec(&p[2], '.');
    let s = decimal_of_pieces(&sp2);
    assert(sp[2] == secs_text);
    if !is_all_digits(&p[0]) || p[0].len() == 0 || !is_all_digits(&p[1]) || p[1].len() == 0 {
        return None;
    }
    proof {
        lemma_digits_nonneg(p@[0]@);
        lemma_digits_nonneg(p@[1]@);
        if decimal_micros(secs_text) is Some {
            let q = split_on(secs_text, '.');
            lemma_digits_nonneg(q[0]);
            if q.len() == 2 {
                lemma_pad6_digits(q[1]);
                lemma_digits_nonneg(pad6(q[1]));
            }
        }
    }
    match (h, m, s) {
        (Some(h), Some(m), Some(s)) => {
            let hm = match h.checked_mul(3_600_000_000) {
                Some(x) => x,
                None => {
                    return None;
                },
            };
            let mm = match m.checked_mul(60_000_000) {
                Some(x) => x,
                None => {
                    return None;
                },
            };
            match hm.checked_add(mm) {
                Some(x) => x.checked_add(s),
                None => None,
            }
        },
        _ => None,
    }
}

/// Splits a run of characters at each `sep`.
fn split_chars_vec(s: &Vec<char>, sep: char) -> (r: Vec<Vec<char>>)
    ensures
        r@.len() == split_on(s@, sep).len(),
        r@.len() >= 1,
        forall|i: int| 0 <= i < r@.len() ==> #[trigger] r@[i]@ == split_on(s@, sep)[i],
{
    let n = s.len();
    let mut out: Vec<Vec<char>> = Vec::new();
    let mut cur: Vec<char> = Vec::new();
    let mut k: usize = 0;
    assert(s@.take(0) =~= Seq::<char>::empty());
    while k < n
        invariant
            n == s@.len(),
            0 <= k <= n,
            split_on(s@.take(k as int), sep).len() == out@.len() + 1,
            forall|i: int| 0 <= i < out@.len() ==> #[trigger] out@[i]@ == split_on(s@.take(k as int), sep)[i],
            cur@ == split_on(s@.take(k as int), sep).last(),
        decreases n - k,
    {
        let c = s[k];
        proof {
            lemma_digits_split_view(s@, k as int);
        }
        if c == sep {
            out.push(cur);
            cur = Vec::new();
        } else {
            cur.push(c);
        }
        k = k + 1;
    }
    assert(s@.take(n as int) =~= s@);
    out.push(cur);
    out
}

fn digit_text(d: u64) -> (r: &'static str)
    requires
        d < 10,
    ensures
        r@ == seq![digit_char(d as int)],
{
    proof {
        reveal_strlit("0");
        reveal_strlit("1");
        reveal_strlit("2");
        reveal_strlit("3");
        reveal_strlit("4");
        reveal_strlit("5");
        reveal_strlit("6");
        reveal_strlit("7");
        reveal_strlit("8");
        reveal_strlit("9");
    }
    if d == 0 {
        "0"
    } else if d == 1 {
        "1"
    } else if d == 2 {
        "2"
    } else if d == 3 {
        "3"
    } else if d == 4 {
        "4"
    } else if d == 5 {
        "5"
    } else if d == 6 {
        "6"
    } else if d == 7 {
        "7"
    } else if d == 8 {
        "8"
    } else {
        "9"
    }
}

/// Appends the decimal digits of `n`.
pub fn push_decimal(out: &mut String, n: u64)
    ensures
        final(out)@ == old(out)@ + decimal_digits(n as nat),
    decreases n,
{
    if n >= 10 {
        push_decimal(out, n / 10);
    }
    out.append(digit_text(n % 10));
    proof {
        if n >= 10 {
            assert(decimal_digits(n as nat) == decimal_digits((n / 10) as nat).push(digit_char((n % 10) as int)));
        }
    }
}

/// Seconds with all six decimals: `12.500000`.
pub open spec fn micros_text(m: nat) -> Seq<char> {
    decimal_digits(m / 1_000_000) + seq![
        '.',
        digit_char(((m % 1_000_000) / 100_000) as int),
        digit_char(((m % 100_000) / 10_000) as int),
        digit_char(((m % 10_000) / 1_000) as int),
        digit_char(((m % 1_000) / 100) as int),
        digit_char(((m % 100) / 10) as int),
        digit_char((m % 10) as int),
    ]
}

/// Seconds with all six decimals, exact to the microsecond: `12.500000`.
pub fn format_seconds_exact(micros: u64) -> (r: String)
    ensures
        r@ == micros_text(micros as nat),
{
    let mut out = String::new();
    push_decimal(&mut out, micros / 1_000_000);
    proof {
        reveal_strlit(".");
    }
    out.append(".");
    out.append(digit_text((micros % 1_000_000) / 100_000));
    out.append(digit_text((micros % 100_000) / 10_000));
    out.append(digit_text((micros % 10_000) / 1_000));
    out.append(digit_text((micros % 1_000) / 100));
    out.append(digit_text((micros % 100) / 10));
    out.append(digit_text(micros % 10));
    assert(out@ =~= micros_text(micros as nat));
    out
}

/// Seconds with two decimals (rounded half up), as `{:.2}` prints them: `5.00`, `0.10`.
pub fn format_seconds_2dp(micros: u64) -> (r: String)
    ensures
        r@ == centis_text(centis_of(micros as nat)),
{
    let c: u64 = micros / 10000 + (if micros % 10000 >= 5000 {
        1u64
    } else {
        0u64
    });
    assert(c == centis_of(micros as nat));
    let mut out = String::new();
    push_decimal(&mut out, c / 100);
    proof {
        reveal_strlit(".");
    }
    out.append(".");
    out.append(digit_text((c % 100) / 10));
    out.append(digit_text(c % 10));
    assert(out@ =~= centis_text(c as nat));
    out
}

} // verus!

//! Reading the running time from the transcoder's banner (`Duration: 00:01:02.50, start: ...`).
use vstd::prelude::*;
use vstd::string::*;

use crate::codec_list::{is_space, is_space_char};
use crate::text::{contains_text, lines_of, occurs_at, occurs_in, text_lines, texts};
use crate::timecode::{fit_u64, parse_time_to_seconds, timecode_micros};

verus! {

/// The first place at or after `from` where `pat` occurs in `s`.
pub open spec fn first_from(s: Seq<char>, pat: Seq<char>, from: int) -> Option<int>
    decreases s.len() + 1 - from,
{
    if from < 0 || from + pat.len() > s.len() {
        None
    } else if occurs_at(s, pat, from) {
        Some(from)
    } else {
        first_from(s, pat, from + 1)
    }
}

/// `s` without leading white space.
pub open spec fn trim_start(s: Seq<char>) -> Seq<char>
    decreases s.len(),
{
    if s.len() > 0 && is_space(s[0]) {
        trim_start(s.skip(1))
    } else {
        s
    }
}

/// `s` without trailing white space.
pub open spec fn trim_end(s: Seq<char>) -> Seq<char>
    decreases s.len(),
{
    if s.len() > 0 && is_space(s.last()) {
        trim_end(s.drop_last())
    } else {
        s
    }
}

/// `s` without white space at either end, as `str::trim` leaves it.
pub open spec fn trimmed(s: Seq<char>) -> Seq<char> {
    trim_end(trim_start(s))
}

pub open spec fn duration_key() -> Seq<char> {
    "Duration: "@
}

/// The text between the first `Duration: ` of a line and the next one (or
/// the end of the line), as `split("Duration: ").nth(1)` yields it.
pub open spec fn duration_piece(line: Seq<char>) -> Option<Seq<char>> {
    match first_from(line, duration_key(), 0) {
        Some(i) => {
            let rest = line.skip(i + duration_key().len());
            Some(
                match first_from(rest, duration_key(), 0) {
                    Some(j) => rest.take(j),
                    None => rest,
                },
            )
        },
        None => None,
    }
}

/// The text before the first comma.
pub open spec fn before_comma(s: Seq<char>) -> Seq<char> {
    match first_from(s, ","@, 0) {
        Some(k) => s.take(k),
        None => s,
    }
}

/// The running time the first line that reports one gives, in microseconds.
pub open spec fn banner_duration(ls: Seq<Seq<char>>) -> Option<u64>
    decreases ls.len(),
{
    if ls.len() == 0 {
        None
    } else if occurs_in(ls[0], "Duration:"@) && duration_piece(ls[0]) is Some {
        fit_u64(timecode_micros(trimmed(before_comma(duration_piece(ls[0])->0))))
    } else {
        banner_duration(ls.skip(1))
    }
}

fn find_from(s: &str, pat: &str, from: usize) -> (r: Option<usize>)
    ensures
        match r {
            Some(i) => first_from(s@, pat@, from as int) == Some(i as int) && i + pat@.len() <= s@.len(),
            None => first_from(s@, pat@, from as int) is None,
        },
{
    let n = s.unicode_len();
    let m = pat.unicode_len();
    let mut i = from;
    while i <= n && m <= n - i
        invariant
            n == s@.len(),
            m == pat@.len(),
            from <= i,
            first_from(s@, pat@, from as int) == first_from(s@, pat@, i as int),
        decreases n + 1 - i,
    {
        let mut k: usize = 0;
        let mut same = true;
        while k < m
            invariant
                n == s@.len(),
                m == pat@.len(),
                i + m <= n,
                0 <= k <= m,
                same == (forall|j: int| 0 <= j < k ==> s@[i + j] == pat@[j]),
            decreases m - k,
        {
            if s.get_char(i + k) != pat.get_char(k) {
                same = false;
            }
            k = k + 1;
        }
        if same {
            assert(s@.subrange(i as int, i + m) =~= pat@);
            return Some(i);
        } else {
            assert(!occurs_at(s@, pat@, i as int)) by {
                let j = choose|j: int| 0 <= j < m && s@[i + j] != pat@[j];
                assert(s@.subrange(i as int, i + m)[j] == s@[i + j]);
            }
        }
        i = i + 1;
    }
    None
}

fn trim_text(s: &str) -> (r: &str)
    ensures
        r@ == trimmed(s@),
{
    let n = s.unicode_len();
    let mut a: usize = 0;
    assert(s@.skip(0) =~= s@);
    while a < n && is_space_char(s.get_char(a))
        invariant
            n == s@.len(),
            0 <= a <= n,
            trim_start(s@) == trim_start(s@.skip(a as int)),
        decreases n - a,
    {
        assert(s@.skip(a as int).skip(1) =~= s@.skip(a + 1));
        a = a + 1;
    }
    let ghost t = s@.skip(a as int);
    assert(trim_start(s@) == t);
    let mut b: usize = n;
    assert(s@.subrange(a as int, n as int) =~= t);
    while b > a && is_space_char(s.get_char(b - 1))
        invariant
            n == s@.len(),
            a <= b <= n,
            t == s@.skip(a as int),
            trim_end(t) == trim_end(s@.subrange(a as int, b as int)),
        decreases b,
    {
        assert(s@.subrange(a as int, b as int).drop_last() =~= s@.subrange(a as int, b - 1));
        b = b - 1;
    }
    s.substring_char(a, b)
}

/// The running time the banner reports, in microseconds: read from the first
/// line with a `Duration: ` entry, up to its comma, as `HH:MM:SS.ff`.
pub fn parse_duration_from_ffmpeg_output(output: &str) -> (r: Option<u64>)
    ensures
        r == banner_duration(lines_of(output@)),
{
    let lines = text_lines(output);
    let ghost ls = lines_of(output@);
    let mut i: usize = 0;
    assert(ls.skip(0) =~= ls);
    while i < lines.len()
        invariant
            texts(lines@) == ls,
            ls == lines_of(output@),
            0 <= i <= lines@.len(),
            banner_duration(ls) == banner_duration(ls.skip(i as int)),
        decreases lines@.len() - i,
    {
        let l = lines[i].as_str();
        assert(ls.skip(i as int)[0] == l@);
        assert(ls.skip(i as int).skip(1) =~= ls.skip(i + 1));
        if contains_text(l, "Duration:") {
            proof {
                reveal_strlit("Duration: ");
            }
            let key = "Duration: ";
            assert(key@ == duration_key());
            match find_from(l, key, 0) {
                Some(at) => {
                    let n = l.unicode_len();
                    let rest = l.substring_char(at + 10, n);
                    let piece = match find_from(rest, key, 0) {
                        Some(j) => rest.substring_char(0, j),
                        None => rest,
                    };
                    assert(piece@ == duration_piece(l@)->0) by {
                        assert(rest@ == l@.skip(at + 10));
                    }
                    let field = match find_from(piece, ",", 0) {
                        Some(k) => piece.substring_char(0, k),
                        None => piece,
                    };
                    assert(field@ == before_comma(piece@)) by {
                        assert(piece@.subrange(0, field@.len() as int) =~= piece@.take(field@.len() as int));
                    }
                    return parse_time_to_seconds(trim_text(field));
                },
                None => {},
            }
        }
        i = i + 1;
    }
    assert(ls.skip(lines@.len() as int) =~= Seq::<Seq<char>>::empty());
    None
}

} // verus!

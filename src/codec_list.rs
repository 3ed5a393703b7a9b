//! Reading the transcoder's `-encoders` / `-decoders` listings.
use vstd::prelude::*;
use vstd::string::*;

use crate::text::{contains_text, has_prefix, join_text, joined, lines_of, occurs_in, starts_with_text, string_of_chars, text_lines, texts};
use crate::types::Codec;

verus! {

/// The characters `char::is_whitespace` accepts (Unicode White_Space).
pub open spec fn is_space(c: char) -> bool {
    ||| ('\t' <= c && c <= '\r')
    ||| c == ' '
    ||| c == '\u{85}'
    ||| c == '\u{a0}'
    ||| c == '\u{1680}'
    ||| ('\u{2000}' <= c && c <= '\u{200a}')
    ||| c == '\u{2028}'
    ||| c == '\u{2029}'
    ||| c == '\u{202f}'
    ||| c == '\u{205f}'
    ||| c == '\u{3000}'
}

/// The runs of non-space characters of `s`, as `str::split_whitespace` yields them.
pub open spec fn words(s: Seq<char>) -> Seq<Seq<char>>
    decreases s.len(),
{
    if s.len() == 0 {
        Seq::empty()
    } else {
        let w = words(s.drop_last());
        let c = s.last();
        if is_space(c) {
            w
        } else if s.len() >= 2 && !is_space(s[s.len() - 2]) {
            w.update(w.len() - 1, w.last().push(c))
        } else {
            w.push(seq![c])
        }
    }
}

/// The accelerator behind an encoder or decoder name, where there is one.
pub open spec fn hardware_kind(name: Seq<char>, encoder: bool) -> Option<Seq<char>> {
    if occurs_in(name, "videotoolbox"@) || occurs_in(name, "vt_"@) {
        Some("Apple VideoToolbox"@)
    } else if encoder && (occurs_in(name, "nvenc"@) || occurs_in(name, "cuda"@)) {
        Some("NVIDIA NVENC"@)
    } else if !encoder && (occurs_in(name, "cuvid"@) || occurs_in(name, "cuda"@)) {
        Some("NVIDIA CUVID"@)
    } else if occurs_in(name, "qsv"@) {
        Some("Intel Quick Sync Video"@)
    } else if occurs_in(name, "amf"@) {
        Some("AMD AMF"@)
    } else {
        None
    }
}

/// A listing line names a video or audio codec: it starts ` V` or ` A` and has
/// at least a flags word, a name and a description.
pub open spec fn is_codec_line(l: Seq<char>) -> bool {
    (has_prefix(l, " V"@) || has_prefix(l, " A"@)) && words(l).len() >= 3
}

/// The codec a listing line describes.
pub open spec fn codec_matches_line(c: Codec, l: Seq<char>, encoder: bool) -> bool {
    &&& c.name@ == words(l)[1]
    &&& c.description@ == joined(words(l).skip(2), " "@)
    &&& c.media_type@ == (if has_prefix(l, " V"@) { "video"@ } else { "audio"@ })
    &&& c.codec_type@ == (if encoder { "encoder"@ } else { "decoder"@ })
    &&& match c.hardware_type {
        Some(h) => hardware_kind(words(l)[1], encoder) == Some(h@),
        None => hardware_kind(words(l)[1], encoder) is None,
    }
}

proof fn lemma_words_step(s: Seq<char>, k: int)
    requires
        0 <= k < s.len(),
    ensures
        s.take(k + 1).drop_last() == s.take(k),
        s.take(k + 1).last() == s[k],
        k >= 1 ==> s.take(k + 1)[k - 1] == s[k - 1],
{
    assert(s.take(k + 1).drop_last() =~= s.take(k));
}

pub(crate) fn is_space_char(c: char) -> (r: bool)
    ensures
        r == is_space(c),
{
    ('\t' <= c && c <= '\r') || c == ' ' || c == '\u{85}' || c == '\u{a0}' || c == '\u{1680}' || ('\u{2000}' <= c
        && c <= '\u{200a}') || c == '\u{2028}' || c == '\u{2029}' || c == '\u{202f}' || c == '\u{205f}' || c
        == '\u{3000}'
}

/// The whitespace-separated words of a run of characters.
fn split_words(s: &Vec<char>) -> (r: Vec<String>)
    ensures
        texts(r@) == words(s@),
{
    let mut out: Vec<String> = Vec::new();
    let mut cur: Vec<char> = Vec::new();
    let mut in_word = false;
    let mut k: usize = 0;
    assert(s@.take(0) =~= Seq::<char>::empty());
    while k < s.len()
        invariant
            0 <= k <= s@.len(),
            in_word == (k > 0 && !is_space(s@[k - 1])),
            in_word ==> words(s@.take(k as int)) == texts(out@).push(cur@),
            !in_word ==> words(s@.take(k as int)) == texts(out@) && cur@.len() == 0,
        decreases s@.len() - k,
    {
        let c = s[k];
        proof {
            lemma_words_step(s@, k as int);
        }
        let ghost before = texts(out@);
        if is_space_char(c) {
            if in_word {
                let word = string_of_chars(&cur);
                out.push(word);
                assert(texts(out@) =~= before.push(cur@));
                cur = Vec::new();
            }
            in_word = false;
        } else {
            if in_word {
                assert(words(s@.take(k + 1)) =~= before.push(cur@.push(c)));
            } else {
                assert(words(s@.take(k + 1)) =~= before.push(seq![c]));
                assert(cur@.push(c) =~= seq![c]);
            }
            cur.push(c);
            in_word = true;
        }
        k = k + 1;
    }
    assert(s@.take(s@.len() as int) =~= s@);
    if in_word {
        let ghost before = texts(out@);
        let word = string_of_chars(&cur);
        out.push(word);
        assert(texts(out@) =~= before.push(cur@));
    }
    out
}

fn hardware_kind_of(name: &str, encoder: bool) -> (r: Option<String>)
    ensures
        match r {
            Some(h) => hardware_kind(name@, encoder) == Some(h@),
            None => hardware_kind(name@, encoder) is None,
        },
{
    if contains_text(name, "videotoolbox") || contains_text(name, "vt_") {
        Some(String::from_str("Apple VideoToolbox"))
    } else if encoder && (contains_text(name, "nvenc") || contains_text(name, "cuda")) {
        Some(String::from_str("NVIDIA NVENC"))
    } else if !encoder && (contains_text(name, "cuvid") || contains_text(name, "cuda")) {
        Some(String::from_str("NVIDIA CUVID"))
    } else if contains_text(name, "qsv") {
        Some(String::from_str("Intel Quick Sync Video"))
    } else if contains_text(name, "amf") {
        Some(String::from_str("AMD AMF"))
    } else {
        None
    }
}

/// The codec one listing line describes, where it describes one.
pub fn parse_codec_line(line: &str, encoder: bool) -> (r: Option<Codec>)
    ensures
        r is Some <==> is_codec_line(line@),
        r matches Some(c) ==> codec_matches_line(c, line@, encoder),
{
    let video = starts_with_text(line, " V");
    let audio = starts_with_text(line, " A");
    if !video && !audio {
        return None;
    }
    let n = line.unicode_len();
    let mut chars: Vec<char> = Vec::new();
    let mut i: usize = 0;
    while i < n
        invariant
            n == line@.len(),
            0 <= i <= n,
            chars@ == line@.take(i as int),
        decreases n - i,
    {
        chars.push(line.get_char(i));
        i = i + 1;
        assert(chars@ =~= line@.take(i as int));
    }
    assert(line@.take(n as int) =~= line@);
    let parts = split_words(&chars);
    if parts.len() < 3 {
        return None;
    }
    let name = parts[1].clone();
    let mut rest: Vec<String> = Vec::new();
    let mut j: usize = 2;
    while j < parts.len()
        invariant
            2 <= j <= parts@.len(),
            texts(rest@) == texts(parts@).subrange(2, j as int),
        decreases parts@.len() - j,
    {
        let ghost before = texts(rest@);
        let w = parts[j].clone();
        rest.push(w);
        assert(texts(rest@) =~= before.push(parts@[j as int]@));
        assert(texts(parts@).subrange(2, j + 1) =~= texts(parts@).subrange(2, j as int).push(texts(parts@)[j as int]));
        assert(texts(rest@) =~= texts(parts@).subrange(2, j + 1));
        j = j + 1;
    }
    assert(texts(parts@).subrange(2, parts@.len() as int) =~= texts(parts@).skip(2));
    let description = join_text(&rest, " ");
    let hardware_type = hardware_kind_of(name.as_str(), encoder);
    let media_type = if video {
        String::from_str("video")
    } else {
        String::from_str("audio")
    };
    let codec_type = if encoder {
        String::from_str("encoder")
    } else {
        String::from_str("decoder")
    };
    Some(Codec { name, codec_type, media_type, description, hardware_type })
}

/// The lines of a listing that name codecs, in order.
pub open spec fn codec_lines(ls: Seq<Seq<char>>) -> Seq<Seq<char>>
    decreases ls.len(),
{
    if ls.len() == 0 {
        Seq::empty()
    } else if is_codec_line(ls.last()) {
        codec_lines(ls.drop_last()).push(ls.last())
    } else {
        codec_lines(ls.drop_last())
    }
}

/// The codecs a `-encoders` (`encoder`) or `-decoders` listing names, one
/// for each line that starts ` V` or ` A` and has a name and a description.
pub fn parse_codec_listing(output: &str, encoder: bool) -> (r: Vec<Codec>)
    ensures
        r@.len() == codec_lines(lines_of(output@)).len(),
        forall|i: int| 0 <= i < r@.len() ==> codec_matches_line(#[trigger] r@[i], codec_lines(lines_of(output@))[i], encoder),
{
    let lines = text_lines(output);
    let ghost ls = lines_of(output@);
    let mut out: Vec<Codec> = Vec::new();
    let mut i: usize = 0;
    assert(ls.take(0) =~= Seq::<Seq<char>>::empty());
    while i < lines.len()
        invariant
            texts(lines@) == ls,
            ls == lines_of(output@),
            0 <= i <= lines@.len(),
            out@.len() == codec_lines(ls.take(i as int)).len(),
            forall|j: int| 0 <= j < out@.len() ==> codec_matches_line(#[trigger] out@[j], codec_lines(ls.take(i as int))[j], encoder),
        decreases lines@.len() - i,
    {
        assert(ls.take(i + 1).drop_last() =~= ls.take(i as int));
        assert(ls.take(i + 1).last() == lines@[i as int]@);
        match parse_codec_line(lines[i].as_str(), encoder) {
            Some(c) => {
                out.push(c);
            },
            None => {},
        }
        i = i + 1;
    }
    assert(ls.take(lines@.len() as int) =~= ls);
    out
}

} // verus!

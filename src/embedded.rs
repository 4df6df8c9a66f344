//! Cues decoded from a subtitle stream inside the media: the text of the
//! decoded rectangles, cleaned of ASS override tags and simple HTML tags.
use vstd::prelude::*;
use crate::clock::clamp_i64;
use crate::media::SubtitleFrame;
use crate::text::{chars_to_string, join_chars, join_spec, push_all, split_chars, split_spec};
use crate::text::{str_to_chars, trim, trim_spec, views};

verus! {

/// A cue lasts this long when the stream gives no end time.
pub const DEFAULT_CUE_MS: i64 = 3000;

pub open spec fn is_ascii_alpha(c: char) -> bool {
    ('a' <= c && c <= 'z') || ('A' <= c && c <= 'Z')
}

/// First position at or after `from` holding `c`.
pub open spec fn index_of(s: Seq<char>, c: char, from: int) -> Option<int>
    decreases s.len() - from,
{
    if from < 0 || from >= s.len() {
        None
    } else if s[from] == c {
        Some(from)
    } else {
        index_of(s, c, from + 1)
    }
}

/// `s` starts with an HTML-like tag (`<i>`, `</b>`, `<font ...>`): a `<`,
/// an optional `/`, a letter, and later a `>`. Its length is returned.
pub open spec fn html_tag_len(s: Seq<char>) -> Option<int> {
    if s.len() >= 2 && s[0] == '<' && (is_ascii_alpha(s[1]) || (s[1] == '/' && s.len() >= 3
        && is_ascii_alpha(s[2]))) {
        match index_of(s, '>', 1) {
            Some(k) => Some(k + 1),
            None => None,
        }
    } else {
        None
    }
}

/// Markup removed from decoded cue text: ASS override blocks `{...}`,
/// HTML-like tags and carriage returns; `\N` and `\n` become line breaks,
/// `\t` a tab, `\r` nothing.
pub open spec fn strip_markup(s: Seq<char>, in_tag: bool) -> Seq<char>
    decreases s.len(),
{
    if s.len() == 0 {
        Seq::<char>::empty()
    } else if s[0] == '{' {
        strip_markup(s.subrange(1, s.len() as int), true)
    } else if s[0] == '}' {
        strip_markup(s.subrange(1, s.len() as int), false)
    } else if in_tag {
        strip_markup(s.subrange(1, s.len() as int), true)
    } else if html_tag_len(s) is Some {
        let k = html_tag_len(s)->0;
        if 0 < k <= s.len() {
            strip_markup(s.subrange(k, s.len() as int), false)
        } else {
            Seq::<char>::empty()
        }
    } else if s[0] == '\\' && s.len() >= 2 && (s[1] == 'N' || s[1] == 'n') {
        seq!['\n'] + strip_markup(s.subrange(2, s.len() as int), false)
    } else if s[0] == '\\' && s.len() >= 2 && s[1] == 'r' {
        strip_markup(s.subrange(2, s.len() as int), false)
    } else if s[0] == '\\' && s.len() >= 2 && s[1] == 't' {
        seq!['\t'] + strip_markup(s.subrange(2, s.len() as int), false)
    } else if s[0] == '\r' {
        strip_markup(s.subrange(1, s.len() as int), false)
    } else {
        seq![s[0]] + strip_markup(s.subrange(1, s.len() as int), false)
    }
}

/// The lines of a text, each trimmed, blank ones left out.
pub open spec fn solid_lines(parts: Seq<Seq<char>>) -> Seq<Seq<char>>
    decreases parts.len(),
{
    if parts.len() == 0 {
        parts
    } else if trim_spec(parts.last()).len() == 0 {
        solid_lines(parts.drop_last())
    } else {
        solid_lines(parts.drop_last()).push(trim_spec(parts.last()))
    }
}

/// Display text of a decoded cue: markup stripped, each line trimmed, blank
/// lines dropped.
pub open spec fn clean_cue_text_spec(s: Seq<char>) -> Seq<char> {
    trim_spec(join_spec(solid_lines(split_spec(strip_markup(s, false), '\n')), '\n'))
}

pub proof fn lemma_index_of_bounds(s: Seq<char>, c: char, from: int)
    ensures
        match index_of(s, c, from) {
            Some(k) => from <= k < s.len() && s[k] == c,
            None => true,
        },
    decreases s.len() - from,
{
    if from >= 0 && from < s.len() && s[from] != c {
        lemma_index_of_bounds(s, c, from + 1);
    }
}

fn index_of_exec(s: &Vec<char>, c: char, from: usize) -> (r: Option<usize>)
    ensures
        match r {
            Some(k) => index_of(s@, c, from as int) == Some(k as int),
            None => index_of(s@, c, from as int) is None,
        },
{
    let mut i = from;
    while i < s.len()
        invariant
            from <= i,
            index_of(s@, c, from as int) == index_of(s@, c, i as int),
        decreases s.len() - i,
    {
        if s[i] == c {
            return Some(i);
        }
        i = i + 1;
    }
    None
}

fn is_ascii_alpha_exec(c: char) -> (r: bool)
    ensures
        r == is_ascii_alpha(c),
{
    ('a' <= c && c <= 'z') || ('A' <= c && c <= 'Z')
}

/// Markup stripping of `s[i..]`, as `strip_markup` of that suffix.
fn strip_markup_exec(s: &Vec<char>) -> (r: Vec<char>)
    ensures
        r@ == strip_markup(s@, false),
{
    let n = s.len();
    let mut out: Vec<char> = Vec::new();
    let mut in_tag = false;
    let mut i: usize = 0;
    assert(s@.subrange(0, n as int) == s@);
    while i < n
        invariant
            i <= n,
            n == s@.len(),
            strip_markup(s@, false) == out@ + strip_markup(s@.subrange(i as int, n as int), in_tag),
        decreases n - i,
    {
        let ghost rest = s@.subrange(i as int, n as int);
        assert(rest[0] == s@[i as int]);
        assert(rest.subrange(1, rest.len() as int) == s@.subrange(i + 1, n as int));
        let c = s[i];
        if c == '{' {
            in_tag = true;
            i = i + 1;
        } else if c == '}' {
            in_tag = false;
            i = i + 1;
        } else if in_tag {
            i = i + 1;
        } else {
            let mut tag_end: Option<usize> = None;
            if c == '<' && i + 1 < n {
                let c1 = s[i + 1];
                assert(rest[1] == c1);
                let starts = is_ascii_alpha_exec(c1) || (c1 == '/' && i + 2 < n
                    && is_ascii_alpha_exec(s[i + 2]));
                if c1 == '/' && i + 2 < n {
                    assert(rest[2] == s@[i + 2]);
                }
                if starts {
                    match index_of_exec(s, '>', i + 1) {
                        Some(k) => {
                            proof {
                                lemma_index_of_bounds(s@, '>', i + 1);
                                lemma_index_shift(s@, i as int, '>', 1);
                            }
                            tag_end = Some(k + 1);
                        },
                        None => {
                            proof {
                                lemma_index_shift(s@, i as int, '>', 1);
                            }
                        },
                    }
                }
            }
            match tag_end {
                Some(e) => {
                    assert(html_tag_len(rest) == Some(e - i));
                    assert(rest.subrange(e - i, rest.len() as int) == s@.subrange(e as int, n as int));
                    i = e;
                },
                None => {
                    assert(html_tag_len(rest) is None);
                    if c == '\\' && i + 1 < n && (s[i + 1] == 'N' || s[i + 1] == 'n') {
                        assert(rest[1] == s@[i + 1]);
                        assert(rest.subrange(2, rest.len() as int) == s@.subrange(i + 2, n as int));
                        let ghost before = out@;
                        out.push('\n');
                        assert(before + (seq!['\n'] + strip_markup(s@.subrange(i + 2, n as int), false))
                            == out@ + strip_markup(s@.subrange(i + 2, n as int), false));
                        i = i + 2;
                    } else if c == '\\' && i + 1 < n && s[i + 1] == 'r' {
                        assert(rest[1] == s@[i + 1]);
                        assert(rest.subrange(2, rest.len() as int) == s@.subrange(i + 2, n as int));
                        i = i + 2;
                    } else if c == '\\' && i + 1 < n && s[i + 1] == 't' {
                        assert(rest[1] == s@[i + 1]);
                        assert(rest.subrange(2, rest.len() as int) == s@.subrange(i + 2, n as int));
                        let ghost before = out@;
                        out.push('\t');
                        assert(before + (seq!['\t'] + strip_markup(s@.subrange(i + 2, n as int), false))
                            == out@ + strip_markup(s@.subrange(i + 2, n as int), false));
                        i = i + 2;
                    } else if c == '\r' {
                        i = i + 1;
                    } else {
                        if c == '\\' && i + 1 < n {
                            assert(rest[1] == s@[i + 1]);
                        }
                        let ghost before = out@;
                        out.push(c);
                        assert(before + (seq![c] + strip_markup(s@.subrange(i + 1, n as int), false))
                            == out@ + strip_markup(s@.subrange(i + 1, n as int), false));
                        i = i + 1;
                    }
                },
            }
        }
    }
    assert(out@ + strip_markup(s@.subrange(n as int, n as int), in_tag) == out@);
    out
}

/// Searching a suffix is searching the whole text from further on.
pub proof fn lemma_index_shift(s: Seq<char>, i: int, c: char, from: int)
    requires
        0 <= i <= s.len(),
        0 <= from,
    ensures
        index_of(s.subrange(i, s.len() as int), c, from) == match index_of(s, c, i + from) {
            Some(k) => Some(k - i),
            None => None::<int>,
        },
    decreases s.len() - (i + from),
{
    let t = s.subrange(i, s.len() as int);
    if from < t.len() {
        assert(t[from] == s[i + from]);
        if s[i + from] != c {
            lemma_index_shift(s, i, c, from + 1);
        }
    }
}

/// Cleans decoded cue text (see `clean_cue_text_spec`).
pub fn clean_subtitle_text(text: &str) -> (r: String)
    ensures
        r@ == clean_cue_text_spec(text@),
{
    let stripped = strip_markup_exec(&str_to_chars(text));
    let parts = split_chars(&stripped, '\n');
    let mut kept: Vec<Vec<char>> = Vec::new();
    let mut i: usize = 0;
    assert(views(parts@).subrange(0, 0).len() == 0);
    while i < parts.len()
        invariant
            i <= parts@.len(),
            views(kept@) == solid_lines(views(parts@).subrange(0, i as int)),
        decreases parts.len() - i,
    {
        let ghost pre = views(parts@).subrange(0, i as int);
        let ghost post = views(parts@).subrange(0, i + 1);
        assert(post.drop_last() == pre);
        assert(post.last() == parts@[i as int]@);
        let t = trim(&parts[i]);
        if t.len() > 0 {
            let ghost before = kept@;
            kept.push(t);
            assert(views(kept@) == views(before).push(t@));
        }
        i = i + 1;
    }
    assert(views(parts@).subrange(0, parts@.len() as int) == views(parts@));
    let joined = join_chars(&kept, '\n');
    chars_to_string(&trim(&joined))
}

/// One decoded subtitle rectangle.
#[derive(Debug, Clone)]
pub enum SubtitleRect {
    /// Plain text.
    Text(String),
    /// An ASS event line.
    Ass(String),
    /// A picture; not shown.
    Bitmap,
}

pub open spec fn rects_text(rects: Seq<SubtitleRect>) -> Seq<char>
    decreases rects.len(),
{
    if rects.len() == 0 {
        Seq::<char>::empty()
    } else {
        rects_text(rects.drop_last()) + match rects.last() {
            SubtitleRect::Text(t) => t@.push('\n'),
            SubtitleRect::Ass(t) => t@.push('\n'),
            SubtitleRect::Bitmap => Seq::<char>::empty(),
        }
    }
}

/// The cue a decoded subtitle yields: the texts of its rectangles, one per
/// line, cleaned; shown from `pts` for `end_display_ms` (3 s when the
/// stream gives none). A cue with no text left after cleaning is dropped.
pub open spec fn assemble_cue_spec(pts: i64, end_display_ms: u32, rects: Seq<SubtitleRect>) -> Option<(i64, i64, Seq<char>)> {
    let text = clean_cue_text_spec(rects_text(rects));
    let duration: i64 = if end_display_ms > 0 {
        end_display_ms as i64
    } else {
        DEFAULT_CUE_MS
    };
    if text.len() == 0 {
        None
    } else {
        Some((duration, clamp_i64(pts + duration), text))
    }
}

impl crate::media::SubtitleFrame {
    /// Builds the cue of a decoded subtitle (see `assemble_cue_spec`).
    pub fn from_decoded(pts: i64, end_display_ms: u32, rects: &Vec<SubtitleRect>) -> (r: Option<
        SubtitleFrame,
    >)
        ensures
            match assemble_cue_spec(pts, end_display_ms, rects@) {
                Some((d, e, t)) => r is Some && r->0.pts == pts && r->0.duration == d
                    && r->0.end_pts == e && r->0.text@ == t,
                None => r is None,
            },
    {
        let mut raw: Vec<char> = Vec::new();
        let mut i: usize = 0;
        assert(rects@.subrange(0, 0).len() == 0);
        while i < rects.len()
            invariant
                i <= rects@.len(),
                raw@ == rects_text(rects@.subrange(0, i as int)),
            decreases rects.len() - i,
        {
            assert(rects@.subrange(0, i + 1).drop_last() == rects@.subrange(0, i as int));
            match &rects[i] {
                SubtitleRect::Text(t) => {
                    push_all(&mut raw, &str_to_chars(t.as_str()));
                    raw.push('\n');
                },
                SubtitleRect::Ass(t) => {
                    push_all(&mut raw, &str_to_chars(t.as_str()));
                    raw.push('\n');
                },
                SubtitleRect::Bitmap => {},
            }
            i = i + 1;
        }
        assert(rects@.subrange(0, rects@.len() as int) == rects@);
        let text = clean_subtitle_text(chars_to_string(&raw).as_str());
        let duration: i64 = if end_display_ms > 0 {
            end_display_ms as i64
        } else {
            DEFAULT_CUE_MS
        };
        if str_to_chars(text.as_str()).len() == 0 {
            return None;
        }
        let end: i128 = pts as i128 + duration as i128;
        let end_pts: i64 = if end > 9223372036854775807i128 {
            i64::MAX
        } else {
            end as i64
        };
        Some(SubtitleFrame { pts, duration, text, end_pts })
    }
}

} // verus!

//! External subtitle files: SRT, ASS/SSA (events section) and WebVTT.
//!
//! Each parser is a fold over the trimmed lines of the file; its model is the
//! spec function of the same name with a `_spec` suffix.
use vstd::prelude::*;
use vstd::multiset::Multiset;
use crate::media::{PlayerError, SubtitleFrame};
use crate::text::{all_digits, all_digits_exec, chars_to_string, contains, contains_spec, ends_with};
use crate::text::{ends_with_spec, find_from, join_chars, join_spec, lines, lines_spec, occurs_at};
use crate::text::{parse_i64, parse_i64_spec, push_all, split_chars, split_spec, starts_with};
use crate::text::{starts_with_spec, str_to_chars, trim, trim_spec, views};

verus! {

/// Loader of external subtitle files.
pub struct ExternalSubtitleParser;

/// A cue as the contracts see it.
pub struct CueModel {
    pub pts: i64,
    pub duration: i64,
    pub text: Seq<char>,
    pub end_pts: i64,
}

impl View for SubtitleFrame {
    type V = CueModel;

    open spec fn view(&self) -> CueModel {
        CueModel { pts: self.pts, duration: self.duration, text: self.text@, end_pts: self.end_pts }
    }
}

pub open spec fn cue_views(v: Seq<SubtitleFrame>) -> Seq<CueModel> {
    v.map_values(|f: SubtitleFrame| f@)
}

pub open spec fn fit_i64(v: int) -> Option<i64> {
    if i64::MIN <= v && v <= i64::MAX {
        Some(v as i64)
    } else {
        None
    }
}

/// `H:M:S` components (each an `i64`) and a sub-second count scaled by
/// `unit`, in milliseconds.
pub open spec fn clock_ms_spec(parts: Seq<Seq<char>>, frac: Seq<char>, unit: int) -> Option<i64> {
    if parts.len() != 3 {
        None
    } else {
        match (
            parse_i64_spec(frac),
            parse_i64_spec(parts[0]),
            parse_i64_spec(parts[1]),
            parse_i64_spec(parts[2]),
        ) {
            (Some(f), Some(h), Some(m), Some(s)) => fit_i64(
                h * 3600000 + m * 60000 + s * 1000 + f * unit,
            ),
            _ => None,
        }
    }
}

/// SRT timestamp `HH:MM:SS,mmm` in milliseconds.
pub open spec fn srt_timestamp_spec(t: Seq<char>) -> Option<i64> {
    let p = split_spec(t, ',');
    if p.len() != 2 {
        None
    } else {
        clock_ms_spec(split_spec(p[0], ':'), p[1], 1)
    }
}

/// ASS timestamp `H:MM:SS.cc` (centiseconds) in milliseconds.
pub open spec fn ass_timestamp_spec(t: Seq<char>) -> Option<i64> {
    let p = split_spec(t, '.');
    if p.len() != 2 {
        None
    } else {
        clock_ms_spec(split_spec(p[0], ':'), p[1], 10)
    }
}

/// VTT timestamp `HH:MM:SS.mmm` or `MM:SS.mmm` in milliseconds.
pub open spec fn vtt_timestamp_spec(t: Seq<char>) -> Option<i64> {
    let p = split_spec(t, '.');
    if p.len() != 2 {
        None
    } else {
        let c = split_spec(p[0], ':');
        if c.len() == 2 {
            match (parse_i64_spec(p[1]), parse_i64_spec(c[0]), parse_i64_spec(c[1])) {
                (Some(f), Some(m), Some(s)) => fit_i64(m * 60000 + s * 1000 + f),
                _ => None,
            }
        } else {
            clock_ms_spec(c, p[1], 1)
        }
    }
}

pub fn to_i64(v: i128) -> (r: Option<i64>)
    ensures
        r == fit_i64(v as int),
{
    if v < -9223372036854775808i128 || v > 9223372036854775807i128 {
        None
    } else {
        Some(v as i64)
    }
}

fn clock_ms(parts: &Vec<Vec<char>>, frac: &Vec<char>, unit: i64) -> (r: Option<i64>)
    requires
        unit == 1 || unit == 10,
    ensures
        r == clock_ms_spec(views(parts@), frac@, unit as int),
{
    if parts.len() != 3 {
        return None;
    }
    assert(views(parts@)[0] == parts@[0]@);
    assert(views(parts@)[1] == parts@[1]@);
    assert(views(parts@)[2] == parts@[2]@);
    let f = match parse_i64(frac) {
        Some(v) => v,
        None => return None,
    };
    let h = match parse_i64(&parts[0]) {
        Some(v) => v,
        None => return None,
    };
    let m = match parse_i64(&parts[1]) {
        Some(v) => v,
        None => return None,
    };
    let s = match parse_i64(&parts[2]) {
        Some(v) => v,
        None => return None,
    };
    let scaled: i128 = if unit == 10 {
        (f as i128) * 10
    } else {
        f as i128
    };
    to_i64((h as i128) * 3600000 + (m as i128) * 60000 + (s as i128) * 1000 + scaled)
}

fn srt_timestamp(t: &Vec<char>) -> (r: Option<i64>)
    ensures
        r == srt_timestamp_spec(t@),
{
    let p = split_chars(t, ',');
    if p.len() != 2 {
        return None;
    }
    assert(views(p@)[0] == p@[0]@ && views(p@)[1] == p@[1]@);
    let c = split_chars(&p[0], ':');
    clock_ms(&c, &p[1], 1)
}

fn ass_timestamp(t: &Vec<char>) -> (r: Option<i64>)
    ensures
        r == ass_timestamp_spec(t@),
{
    let p = split_chars(t, '.');
    if p.len() != 2 {
        return None;
    }
    assert(views(p@)[0] == p@[0]@ && views(p@)[1] == p@[1]@);
    let c = split_chars(&p[0], ':');
    clock_ms(&c, &p[1], 10)
}

fn vtt_timestamp(t: &Vec<char>) -> (r: Option<i64>)
    ensures
        r == vtt_timestamp_spec(t@),
{
    let p = split_chars(t, '.');
    if p.len() != 2 {
        return None;
    }
    assert(views(p@)[0] == p@[0]@ && views(p@)[1] == p@[1]@);
    let c = split_chars(&p[0], ':');
    if c.len() == 2 {
        assert(views(c@)[0] == c@[0]@ && views(c@)[1] == c@[1]@);
        let f = match parse_i64(&p[1]) {
            Some(v) => v,
            None => return None,
        };
        let m = match parse_i64(&c[0]) {
            Some(v) => v,
            None => return None,
        };
        let s = match parse_i64(&c[1]) {
            Some(v) => v,
            None => return None,
        };
        to_i64((m as i128) * 60000 + (s as i128) * 1000 + (f as i128))
    } else {
        clock_ms(&c, &p[1], 1)
    }
}

impl ExternalSubtitleParser {
    /// Parses an SRT timestamp such as `00:01:30,500` into milliseconds.
    pub fn parse_srt_timestamp(timestamp: &str) -> (r: Option<i64>)
        ensures
            r == srt_timestamp_spec(timestamp@),
    {
        srt_timestamp(&str_to_chars(timestamp))
    }

    /// Parses an ASS timestamp such as `0:01:30.50` into milliseconds.
    pub fn parse_ass_timestamp(timestamp: &str) -> (r: Option<i64>)
        ensures
            r == ass_timestamp_spec(timestamp@),
    {
        ass_timestamp(&str_to_chars(timestamp))
    }

    /// Parses a VTT timestamp such as `00:01:30.500` or `01:30.500` into
    /// milliseconds.
    pub fn parse_vtt_timestamp(timestamp: &str) -> (r: Option<i64>)
        ensures
            r == vtt_timestamp_spec(timestamp@),
    {
        vtt_timestamp(&str_to_chars(timestamp))
    }
}

/// Kind of subtitle file.
#[derive(Debug, Clone, Copy, PartialEq, Eq, Structural)]
pub enum SubtitleFormat {
    Srt,
    Ass,
    Vtt,
}

pub open spec fn timestamp_spec(fmt: SubtitleFormat, t: Seq<char>) -> Option<i64> {
    match fmt {
        SubtitleFormat::Srt => srt_timestamp_spec(t),
        SubtitleFormat::Ass => ass_timestamp_spec(t),
        SubtitleFormat::Vtt => vtt_timestamp_spec(t),
    }
}

fn timestamp(fmt: SubtitleFormat, t: &Vec<char>) -> (r: Option<i64>)
    ensures
        r == timestamp_spec(fmt, t@),
{
    match fmt {
        SubtitleFormat::Srt => srt_timestamp(t),
        SubtitleFormat::Ass => ass_timestamp(t),
        SubtitleFormat::Vtt => vtt_timestamp(t),
    }
}

pub open spec fn arrow() -> Seq<char> {
    seq!['-', '-', '>']
}

/// `i` is the position of the one and only `-->` in `s`.
pub open spec fn sole_arrow_at(s: Seq<char>, i: int) -> bool {
    occurs_at(s, arrow(), i) && forall|j: int| occurs_at(s, arrow(), j) ==> j == i
}

/// A cue timing line `start --> end`: exactly one arrow, each side a
/// timestamp once trimmed, and a span whose length fits in `i64`.
pub open spec fn time_line_spec(fmt: SubtitleFormat, s: Seq<char>) -> Option<(i64, i64)> {
    if exists|i: int| sole_arrow_at(s, i) {
        let i = choose|i: int| sole_arrow_at(s, i);
        match (
            timestamp_spec(fmt, trim_spec(s.subrange(0, i))),
            timestamp_spec(fmt, trim_spec(s.subrange(i + 3, s.len() as int))),
        ) {
            (Some(a), Some(b)) => if i64::MIN <= b - a && b - a <= i64::MAX {
                Some((a, b))
            } else {
                None
            },
            _ => None,
        }
    } else {
        None
    }
}

fn arrow_chars() -> (r: Vec<char>)
    ensures
        r@ == arrow(),
{
    let mut v: Vec<char> = Vec::new();
    v.push('-');
    v.push('-');
    v.push('>');
    v
}

fn time_line(fmt: SubtitleFormat, s: &Vec<char>) -> (r: Option<(i64, i64)>)
    ensures
        r == time_line_spec(fmt, s@),
{
    let arr = arrow_chars();
    let i = match find_from(s, &arr, 0) {
        Some(i) => i,
        None => {
            assert(!exists|i: int| sole_arrow_at(s@, i));
            return None;
        },
    };
    assert(arr@.len() == 3);
    assert(occurs_at(s@, arr@, i as int));
    assert(i + 3 <= s.len());
    if find_from(s, &arr, i + 3).is_some() {
        assert(!exists|k: int| sole_arrow_at(s@, k));
        return None;
    }
    assert(sole_arrow_at(s@, i as int)) by {
        assert forall|j: int| occurs_at(s@, arrow(), j) implies j == i by {
            if j == i + 1 {
                assert(s@.subrange(j, j + 3)[1] == s@[i + 2]);
                assert(s@.subrange(i as int, i + 3)[2] == s@[i + 2]);
            } else if j == i + 2 {
                assert(s@.subrange(j, j + 3)[0] == s@[i + 2]);
                assert(s@.subrange(i as int, i + 3)[2] == s@[i + 2]);
            }
        }
    }
    let before = slice_of_trimmed(s, 0, i);
    let after = slice_of_trimmed(s, i + 3, s.len());
    let a = match timestamp(fmt, &before) {
        Some(v) => v,
        None => return None,
    };
    let b = match timestamp(fmt, &after) {
        Some(v) => v,
        None => return None,
    };
    let d: i128 = b as i128 - a as i128;
    if d < -9223372036854775808i128 || d > 9223372036854775807i128 {
        None
    } else {
        Some((a, b))
    }
}

fn slice_of_trimmed(s: &Vec<char>, lo: usize, hi: usize) -> (r: Vec<char>)
    requires
        lo <= hi <= s@.len(),
    ensures
        r@ == trim_spec(s@.subrange(lo as int, hi as int)),
{
    let part = crate::text::slice_of(s, lo, hi);
    trim(&part)
}

/// ASS override tags `{...}` removed (a backslash inside a tag also hides
/// the next character) and `\N` or `\n` outside tags turned into line breaks.
pub open spec fn strip_ass_spec(s: Seq<char>, in_tag: bool) -> Seq<char>
    decreases s.len(),
{
    if s.len() == 0 {
        Seq::<char>::empty()
    } else if s[0] == '{' {
        strip_ass_spec(s.subrange(1, s.len() as int), true)
    } else if s[0] == '}' {
        strip_ass_spec(s.subrange(1, s.len() as int), false)
    } else if in_tag {
        if s[0] == '\\' && s.len() >= 2 {
            strip_ass_spec(s.subrange(2, s.len() as int), true)
        } else {
            strip_ass_spec(s.subrange(1, s.len() as int), true)
        }
    } else if s[0] == '\\' && s.len() >= 2 && (s[1] == 'N' || s[1] == 'n') {
        seq!['\n'] + strip_ass_spec(s.subrange(2, s.len() as int), false)
    } else {
        seq![s[0]] + strip_ass_spec(s.subrange(1, s.len() as int), false)
    }
}

/// Display text of an ASS event: tags stripped, then trimmed.
pub open spec fn clean_ass_spec(s: Seq<char>) -> Seq<char> {
    trim_spec(strip_ass_spec(s, false))
}

fn clean_ass(s: &Vec<char>) -> (r: Vec<char>)
    ensures
        r@ == clean_ass_spec(s@),
{
    let n = s.len();
    let mut out: Vec<char> = Vec::new();
    let mut in_tag = false;
    let mut i: usize = 0;
    assert(s@.subrange(0, n as int) == s@);
    while i < n
        invariant
            i <= n,
            n == s@.len(),
            strip_ass_spec(s@, false) == out@ + strip_ass_spec(
                s@.subrange(i as int, n as int),
                in_tag,
            ),
        decreases n - i,
    {
        let ghost rest = s@.subrange(i as int, n as int);
        assert(rest[0] == s@[i as int]);
        assert(rest.subrange(1, rest.len() as int) == s@.subrange(i + 1, n as int));
        let c = s[i];
        if c == '{' {
            in_tag = true;
            i = i + 1;
        } else if c == '}' {
            in_tag = false;
            i = i + 1;
        } else if in_tag {
            if c == '\\' && i + 1 < n {
                assert(rest.subrange(2, rest.len() as int) == s@.subrange(i + 2, n as int));
                i = i + 2;
            } else {
                i = i + 1;
            }
        } else if c == '\\' && i + 1 < n && (s[i + 1] == 'N' || s[i + 1] == 'n') {
            assert(rest[1] == s@[i + 1]);
            assert(rest.subrange(2, rest.len() as int) == s@.subrange(i + 2, n as int));
            let ghost before = out@;
            out.push('\n');
            assert(before + (seq!['\n'] + strip_ass_spec(s@.subrange(i + 2, n as int), false))
                == out@ + strip_ass_spec(s@.subrange(i + 2, n as int), false));
            i = i + 2;
        } else {
            if c == '\\' && i + 1 < n {
                assert(rest[1] == s@[i + 1]);
            }
            let ghost before = out@;
            out.push(c);
            assert(before + (seq![c] + strip_ass_spec(s@.subrange(i + 1, n as int), false))
                == out@ + strip_ass_spec(s@.subrange(i + 1, n as int), false));
            i = i + 1;
        }
    }
    assert(out@ + strip_ass_spec(s@.subrange(n as int, n as int), in_tag) == out@);
    trim(&out)
}

impl ExternalSubtitleParser {
    /// Strips ASS override tags and turns `\N` / `\n` into line breaks.
    pub fn clean_ass_text(text: &str) -> (r: String)
        ensures
            r@ == clean_ass_spec(text@),
    {
        let v = clean_ass(&str_to_chars(text));
        chars_to_string(&v)
    }

    /// Parses an SRT timing line such as `00:01:30,500 --> 00:01:33,400`.
    pub fn parse_srt_time_line(line: &str) -> (r: Option<(i64, i64)>)
        ensures
            r == time_line_spec(SubtitleFormat::Srt, line@),
    {
        time_line(SubtitleFormat::Srt, &str_to_chars(line))
    }

    /// Parses a VTT timing line such as `00:01:30.500 --> 00:01:33.400`.
    pub fn parse_vtt_time_line(line: &str) -> (r: Option<(i64, i64)>)
        ensures
            r == time_line_spec(SubtitleFormat::Vtt, line@),
    {
        time_line(SubtitleFormat::Vtt, &str_to_chars(line))
    }
}

/// A parser's position in a block-structured file (SRT, VTT): the cue being
/// read, if any, and the cues completed so far.
pub struct BlockState {
    pub cur: Option<(i64, i64, Seq<char>)>,
    pub out: Seq<CueModel>,
}

pub open spec fn block_init() -> BlockState {
    BlockState { cur: None, out: Seq::<CueModel>::empty() }
}

pub open spec fn cue_of(a: i64, b: i64, text: Seq<char>) -> CueModel {
    CueModel { pts: a, duration: (b - a) as i64, text, end_pts: b }
}

/// The span of the pending cue fits in `i64`.
pub open spec fn block_wf(st: BlockState) -> bool {
    match st.cur {
        Some((a, b, _t)) => i64::MIN <= b - a <= i64::MAX,
        None => true,
    }
}

/// Ends the pending cue; it is kept when its trimmed text is not empty.
pub open spec fn block_finish(st: BlockState) -> BlockState {
    match st.cur {
        Some((a, b, t)) => BlockState {
            cur: None,
            out: if trim_spec(t).len() > 0 {
                st.out.push(cue_of(a, b, trim_spec(t)))
            } else {
                st.out
            },
        },
        None => st,
    }
}

pub open spec fn append_line_spec(text: Seq<char>, line: Seq<char>) -> Seq<char> {
    if text.len() == 0 {
        line
    } else {
        text.push('\n') + line
    }
}

/// One line of an SRT or VTT file. A blank line ends the cue; a line with an
/// arrow starts one (or is ignored when it does not parse); in SRT a line of
/// digits is a cue number, in VTT `NOTE` and `STYLE` lines are skipped; any
/// other line adds to the pending cue's text.
pub open spec fn block_step(fmt: SubtitleFormat, st: BlockState, line: Seq<char>) -> BlockState {
    let t = trim_spec(line);
    if t.len() == 0 {
        block_finish(st)
    } else if fmt == SubtitleFormat::Srt && all_digits(t) {
        st
    } else if contains_spec(t, arrow()) {
        match time_line_spec(fmt, t) {
            Some((a, b)) => BlockState { cur: Some((a, b, Seq::<char>::empty())), out: st.out },
            None => st,
        }
    } else if fmt == SubtitleFormat::Vtt && (starts_with_spec(t, "NOTE"@) || starts_with_spec(
        t,
        "STYLE"@,
    )) {
        st
    } else {
        match st.cur {
            Some((a, b, x)) => BlockState { cur: Some((a, b, append_line_spec(x, t))), out: st.out },
            None => st,
        }
    }
}

pub open spec fn block_fold(fmt: SubtitleFormat, ls: Seq<Seq<char>>) -> BlockState
    decreases ls.len(),
{
    if ls.len() == 0 {
        block_init()
    } else {
        block_step(fmt, block_fold(fmt, ls.drop_last()), ls.last())
    }
}

/// The cues of an SRT file.
pub open spec fn srt_cues_spec(content: Seq<char>) -> Seq<CueModel> {
    block_finish(block_fold(SubtitleFormat::Srt, lines_spec(content))).out
}

/// The cues of a WebVTT file; its first line is the header.
pub open spec fn vtt_cues_spec(content: Seq<char>) -> Seq<CueModel> {
    let ls = lines_spec(content);
    if ls.len() == 0 {
        Seq::<CueModel>::empty()
    } else {
        block_finish(block_fold(SubtitleFormat::Vtt, ls.drop_first())).out
    }
}

pub open spec fn pending_view(cur: Option<(i64, i64, Vec<char>)>) -> Option<(i64, i64, Seq<char>)> {
    match cur {
        Some((a, b, v)) => Some((a, b, v@)),
        None => None,
    }
}

pub open spec fn state_view(cur: Option<(i64, i64, Vec<char>)>, out: Seq<SubtitleFrame>) -> BlockState {
    BlockState { cur: pending_view(cur), out: cue_views(out) }
}

fn make_cue(a: i64, b: i64, text: &Vec<char>) -> (r: SubtitleFrame)
    requires
        i64::MIN <= b - a <= i64::MAX,
    ensures
        r@ == cue_of(a, b, text@),
{
    SubtitleFrame { pts: a, duration: b - a, text: chars_to_string(text), end_pts: b }
}

fn finish_block(cur: &mut Option<(i64, i64, Vec<char>)>, out: &mut Vec<SubtitleFrame>)
    requires
        block_wf(state_view(*old(cur), old(out)@)),
    ensures
        state_view(*final(cur), final(out)@) == block_finish(state_view(*old(cur), old(out)@)),
{
    let taken = cur.take();
    match taken {
        Some((a, b, t)) => {
            let tt = trim(&t);
            if tt.len() > 0 {
                let f = make_cue(a, b, &tt);
                let ghost before = out@;
                out.push(f);
                assert(cue_views(out@) == cue_views(before).push(f@));
            }
        },
        None => {},
    }
}

fn block_line(
    fmt: SubtitleFormat,
    cur: &mut Option<(i64, i64, Vec<char>)>,
    out: &mut Vec<SubtitleFrame>,
    line: &Vec<char>,
)
    requires
        block_wf(state_view(*old(cur), old(out)@)),
    ensures
        block_wf(state_view(*final(cur), final(out)@)),
        state_view(*final(cur), final(out)@) == block_step(
            fmt,
            state_view(*old(cur), old(out)@),
            line@,
        ),
{
    let t = trim(line);
    if t.len() == 0 {
        finish_block(cur, out);
        return ;
    }
    if fmt == SubtitleFormat::Srt && all_digits_exec(&t) {
        return ;
    }
    let arr = arrow_chars();
    if contains(&t, &arr) {
        match time_line(fmt, &t) {
            Some((a, b)) => {
                *cur = Some((a, b, Vec::new()));
            },
            None => {},
        }
        return ;
    }
    if fmt == SubtitleFormat::Vtt {
        let note = str_to_chars("NOTE");
        let style = str_to_chars("STYLE");
        if starts_with(&t, &note) || starts_with(&t, &style) {
            return ;
        }
    }
    match cur {
        Some((_a, _b, x)) => {
            if x.len() > 0 {
                x.push('\n');
            }
            push_all(x, &t);
        },
        None => {},
    }
}

fn parse_blocks(fmt: SubtitleFormat, ls: &Vec<Vec<char>>, first: usize) -> (r: Vec<SubtitleFrame>)
    requires
        first <= ls@.len(),
    ensures
        cue_views(r@) == block_finish(
            block_fold(fmt, views(ls@).subrange(first as int, ls@.len() as int)),
        ).out,
{
    let mut cur: Option<(i64, i64, Vec<char>)> = None;
    let mut out: Vec<SubtitleFrame> = Vec::new();
    let mut i: usize = first;
    assert(views(ls@).subrange(first as int, first as int).len() == 0);
    assert(cue_views(out@) == Seq::<CueModel>::empty());
    while i < ls.len()
        invariant
            first <= i <= ls@.len(),
            block_wf(state_view(cur, out@)),
            state_view(cur, out@) == block_fold(
                fmt,
                views(ls@).subrange(first as int, i as int),
            ),
        decreases ls.len() - i,
    {
        let ghost pre = views(ls@).subrange(first as int, i as int);
        let ghost post = views(ls@).subrange(first as int, i + 1);
        assert(post.drop_last() == pre);
        assert(post.last() == ls@[i as int]@);
        block_line(fmt, &mut cur, &mut out, &ls[i]);
        i = i + 1;
    }
    finish_block(&mut cur, &mut out);
    out
}

impl ExternalSubtitleParser {
    /// Parses the text of an SRT file.
    pub fn parse_srt(content: &str) -> (r: Result<Vec<SubtitleFrame>, PlayerError>)
        ensures
            r is Ok,
            cue_views(r->Ok_0@) == srt_cues_spec(content@),
    {
        let ls = lines(&str_to_chars(content));
        let r = parse_blocks(SubtitleFormat::Srt, &ls, 0);
        assert(views(ls@).subrange(0, ls@.len() as int) == views(ls@));
        Ok(r)
    }

    /// Parses the text of a WebVTT file.
    pub fn parse_vtt(content: &str) -> (r: Result<Vec<SubtitleFrame>, PlayerError>)
        ensures
            r is Ok,
            cue_views(r->Ok_0@) == vtt_cues_spec(content@),
    {
        let ls = lines(&str_to_chars(content));
        if ls.len() == 0 {
            return Ok(Vec::new());
        }
        let r = parse_blocks(SubtitleFormat::Vtt, &ls, 1);
        assert(views(ls@).subrange(1, ls@.len() as int) == views(ls@).drop_first());
        Ok(r)
    }
}

pub open spec fn ascii_lower(c: char) -> int {
    if 'A' <= c && c <= 'Z' {
        c as int + 32
    } else {
        c as int
    }
}

/// Equal up to ASCII case, as `str::eq_ignore_ascii_case` decides.
pub open spec fn eq_ignore_ascii_case_spec(s: Seq<char>, p: Seq<char>) -> bool {
    s.len() == p.len() && forall|i: int| 0 <= i < s.len() ==> ascii_lower(#[trigger] s[i])
        == ascii_lower(p[i])
}

fn ascii_lower_exec(c: char) -> (r: u32)
    ensures
        r as int == ascii_lower(c),
{
    if 'A' <= c && c <= 'Z' {
        c as u32 + 32
    } else {
        c as u32
    }
}

fn eq_ignore_ascii_case(s: &Vec<char>, p: &Vec<char>) -> (r: bool)
    ensures
        r == eq_ignore_ascii_case_spec(s@, p@),
{
    if s.len() != p.len() {
        return false;
    }
    let mut i: usize = 0;
    while i < s.len()
        invariant
            s@.len() == p@.len(),
            i <= s@.len(),
            forall|j: int| 0 <= j < i ==> ascii_lower(#[trigger] s@[j]) == ascii_lower(p@[j]),
        decreases s.len() - i,
    {
        if ascii_lower_exec(s[i]) != ascii_lower_exec(p[i]) {
            return false;
        }
        i = i + 1;
    }
    true
}

/// An ASS `Dialogue:` line: ten comma-separated fields, start and end in
/// fields two and three, the text (which may hold commas) from the tenth on.
/// A cue whose cleaned text is empty is dropped.
pub open spec fn dialogue_spec(line: Seq<char>) -> Option<CueModel> {
    let parts = split_spec(line, ',');
    if parts.len() < 10 {
        None
    } else {
        let text = clean_ass_spec(trim_spec(join_spec(parts.subrange(9, parts.len() as int), ',')));
        match (
            ass_timestamp_spec(trim_spec(parts[1])),
            ass_timestamp_spec(trim_spec(parts[2])),
        ) {
            (Some(a), Some(b)) => if text.len() > 0 && i64::MIN <= b - a <= i64::MAX {
                Some(cue_of(a, b, text))
            } else {
                None
            },
            _ => None,
        }
    }
}

pub struct AssState {
    pub in_events: bool,
    pub out: Seq<CueModel>,
}

/// One line of an ASS file: section headers switch the events section on or
/// off; inside it each `Dialogue:` line may give a cue.
pub open spec fn ass_step(st: AssState, line: Seq<char>) -> AssState {
    let t = trim_spec(line);
    if eq_ignore_ascii_case_spec(t, "[Events]"@) {
        AssState { in_events: true, out: st.out }
    } else if starts_with_spec(t, "["@) && ends_with_spec(t, "]"@) {
        AssState { in_events: false, out: st.out }
    } else if st.in_events && starts_with_spec(t, "Dialogue:"@) {
        match dialogue_spec(t) {
            Some(c) => AssState { in_events: true, out: st.out.push(c) },
            None => st,
        }
    } else {
        st
    }
}

pub open spec fn ass_fold(ls: Seq<Seq<char>>) -> AssState
    decreases ls.len(),
{
    if ls.len() == 0 {
        AssState { in_events: false, out: Seq::<CueModel>::empty() }
    } else {
        ass_step(ass_fold(ls.drop_last()), ls.last())
    }
}

/// The cues of an ASS/SSA file.
pub open spec fn ass_cues_spec(content: Seq<char>) -> Seq<CueModel> {
    ass_fold(lines_spec(content)).out
}

fn dialogue(line: &Vec<char>) -> (r: Option<SubtitleFrame>)
    ensures
        match r {
            Some(f) => dialogue_spec(line@) == Some(f@),
            None => dialogue_spec(line@) is None,
        },
{
    let parts = split_chars(line, ',');
    if parts.len() < 10 {
        return None;
    }
    let ghost pv = views(parts@);
    assert(pv[1] == parts@[1]@ && pv[2] == parts@[2]@);
    let mut tail: Vec<Vec<char>> = Vec::new();
    let mut k: usize = 9;
    while k < parts.len()
        invariant
            9 <= k <= parts@.len(),
            pv == views(parts@),
            views(tail@) == pv.subrange(9, k as int),
        decreases parts.len() - k,
    {
        let piece = crate::text::copy_chars(&parts[k]);
        let ghost before = tail@;
        tail.push(piece);
        assert(views(tail@) == views(before).push(piece@));
        assert(pv.subrange(9, k + 1) == pv.subrange(9, k as int).push(pv[k as int]));
        k = k + 1;
    }
    let joined = join_chars(&tail, ',');
    let text = clean_ass(&trim(&joined));
    let a = match ass_timestamp(&trim(&parts[1])) {
        Some(v) => v,
        None => return None,
    };
    let b = match ass_timestamp(&trim(&parts[2])) {
        Some(v) => v,
        None => return None,
    };
    let d: i128 = b as i128 - a as i128;
    if text.len() > 0 && -9223372036854775808i128 <= d && d <= 9223372036854775807i128 {
        Some(make_cue(a, b, &text))
    } else {
        None
    }
}

impl ExternalSubtitleParser {
    /// Parses the text of an ASS/SSA file (events section only).
    pub fn parse_ass(content: &str) -> (r: Result<Vec<SubtitleFrame>, PlayerError>)
        ensures
            r is Ok,
            cue_views(r->Ok_0@) == ass_cues_spec(content@),
    {
        let ls = lines(&str_to_chars(content));
        let events = str_to_chars("[Events]");
        let open_br = str_to_chars("[");
        let close_br = str_to_chars("]");
        let dlg = str_to_chars("Dialogue:");
        let mut in_events = false;
        let mut out: Vec<SubtitleFrame> = Vec::new();
        let mut i: usize = 0;
        assert(views(ls@).subrange(0, 0).len() == 0);
        assert(cue_views(out@) == Seq::<CueModel>::empty());
        while i < ls.len()
            invariant
                i <= ls@.len(),
                events@ == "[Events]"@,
                open_br@ == "["@,
                close_br@ == "]"@,
                dlg@ == "Dialogue:"@,
                ass_fold(views(ls@).subrange(0, i as int)) == (AssState {
                    in_events,
                    out: cue_views(out@),
                }),
            decreases ls.len() - i,
        {
            let ghost pre = views(ls@).subrange(0, i as int);
            let ghost post = views(ls@).subrange(0, i + 1);
            assert(post.drop_last() == pre);
            assert(post.last() == ls@[i as int]@);
            let t = trim(&ls[i]);
            if eq_ignore_ascii_case(&t, &events) {
                in_events = true;
            } else if starts_with(&t, &open_br) && ends_with(&t, &close_br) {
                in_events = false;
            } else if in_events && starts_with(&t, &dlg) {
                match dialogue(&t) {
                    Some(f) => {
                        let ghost before = out@;
                        out.push(f);
                        assert(cue_views(out@) == cue_views(before).push(f@));
                    },
                    None => {},
                }
            }
            i = i + 1;
        }
        assert(views(ls@).subrange(0, ls@.len() as int) == views(ls@));
        Ok(out)
    }
}

/// What `str::to_lowercase` gives for a text: full Unicode lower-casing,
/// which depends on the characters alone.
pub uninterp spec fn lower_of(s: Seq<char>) -> Seq<char>;

/// Relies on `str::to_lowercase`: the result depends on the characters alone.
#[verifier::external_body]
fn lowercase(s: &str) -> (r: String)
    ensures
        r@ == lower_of(s@),
{
    s.to_lowercase()
}

/// Number of UTF-8 bytes of a character.
pub open spec fn utf8_width(c: char) -> int {
    if (c as u32) < 0x80 {
        1
    } else if (c as u32) < 0x800 {
        2
    } else if (c as u32) < 0x10000 {
        3
    } else {
        4
    }
}

/// Length of a text in UTF-8 bytes, as `str::len` counts it.
pub open spec fn byte_len(s: Seq<char>) -> int
    decreases s.len(),
{
    if s.len() == 0 {
        0
    } else {
        byte_len(s.drop_last()) + utf8_width(s.last())
    }
}

fn utf8_width_exec(c: char) -> (r: usize)
    ensures
        r as int == utf8_width(c),
{
    if (c as u32) < 0x80 {
        1
    } else if (c as u32) < 0x800 {
        2
    } else if (c as u32) < 0x10000 {
        3
    } else {
        4
    }
}

/// Characters at which a file name is cut into words.
pub open spec fn name_separators() -> Seq<char> {
    seq!['.', '-', '_', ' ', '[', ']', '(', ')']
}

pub open spec fn is_name_separator(c: char) -> bool {
    name_separators().contains(c)
}

fn is_name_separator_exec(c: char) -> (r: bool)
    ensures
        r == is_name_separator(c),
{
    let r = c == '.' || c == '-' || c == '_' || c == ' ' || c == '[' || c == ']' || c == '('
        || c == ')';
    assert(r == is_name_separator(c)) by {
        if r {
            if c == '.' { assert(name_separators()[0] == c); }
            else if c == '-' { assert(name_separators()[1] == c); }
            else if c == '_' { assert(name_separators()[2] == c); }
            else if c == ' ' { assert(name_separators()[3] == c); }
            else if c == '[' { assert(name_separators()[4] == c); }
            else if c == ']' { assert(name_separators()[5] == c); }
            else if c == '(' { assert(name_separators()[6] == c); }
            else { assert(name_separators()[7] == c); }
        }
    }
    r
}

/// The words of a file name: pieces between separators that are longer than
/// two bytes.
pub open spec fn name_words(s: Seq<char>) -> Seq<Seq<char>>
    decreases s.len(),
{
    words_from(s, 0, 0)
}

/// Words of `s[start..]` where the current word began at `word_start`.
pub open spec fn words_from(s: Seq<char>, word_start: int, i: int) -> Seq<Seq<char>>
    decreases s.len() - i,
{
    if i < 0 || i > s.len() || word_start > i || word_start < 0 {
        Seq::<Seq<char>>::empty()
    } else if i == s.len() {
        keep_word(s.subrange(word_start, i))
    } else if is_name_separator(s[i]) {
        keep_word(s.subrange(word_start, i)) + words_from(s, i + 1, i + 1)
    } else {
        words_from(s, word_start, i + 1)
    }
}

pub open spec fn keep_word(w: Seq<char>) -> Seq<Seq<char>> {
    if byte_len(w) > 2 {
        seq![w]
    } else {
        Seq::<Seq<char>>::empty()
    }
}

/// Release, container and codec tags that say nothing of a title.
pub open spec fn is_noise_word(lw: Seq<char>) -> bool {
    lw == "web"@ || lw == "dl"@ || lw == "ddp"@ || lw == "atmos"@ || lw == "h264"@
        || lw == "h265"@ || lw == "mkv"@ || lw == "mp4"@ || lw == "avi"@ || lw == "1080p"@
        || lw == "2160p"@ || lw == "720p"@ || lw == "480p"@ || lw == "bluray"@ || lw
        == "bdrip"@ || lw == "webrip"@ || lw == "x264"@ || lw == "x265"@ || lw == "aac"@ || lw
        == "ac3"@ || lw == "dts"@ || lw == "flac"@ || lw == "mp3"@
}

pub open spec fn filter_noise(ws: Seq<Seq<char>>) -> Seq<Seq<char>>
    decreases ws.len(),
{
    if ws.len() == 0 {
        ws
    } else if is_noise_word(lower_of(ws.last())) {
        filter_noise(ws.drop_last())
    } else {
        filter_noise(ws.drop_last()).push(ws.last())
    }
}

/// The longest prefix of whole characters that fits in `n` bytes.
pub open spec fn byte_prefix(s: Seq<char>, n: int) -> Seq<char>
    decreases s.len(),
{
    if s.len() == 0 || byte_len(s) <= n {
        s
    } else {
        byte_prefix(s.drop_last(), n)
    }
}

/// Keywords of a video file name: its words minus noise tags; when fewer
/// than two remain and the name is longer than ten bytes, its first ten
/// bytes are added.
pub open spec fn keywords_spec(name: Seq<char>) -> Seq<Seq<char>> {
    let k = filter_noise(name_words(name));
    if k.len() < 2 && byte_len(name) > 10 {
        k.push(byte_prefix(name, 10))
    } else {
        k
    }
}

fn is_noise(lw: &str) -> (r: bool)
    ensures
        r == is_noise_word(lw@),
{
    let noise = [
        "web", "dl", "ddp", "atmos", "h264", "h265", "mkv", "mp4", "avi", "1080p", "2160p",
        "720p", "480p", "bluray", "bdrip", "webrip", "x264", "x265", "aac", "ac3", "dts", "flac",
        "mp3",
    ];
    let w = str_to_chars(lw);
    let mut i: usize = 0;
    let mut found = false;
    while i < 23
        invariant
            i <= 23,
            w@ == lw@,
            noise@ == seq![
                "web", "dl", "ddp", "atmos", "h264", "h265", "mkv", "mp4", "avi", "1080p",
                "2160p", "720p", "480p", "bluray", "bdrip", "webrip", "x264", "x265", "aac",
                "ac3", "dts", "flac", "mp3",
            ],
            found == exists|j: int| 0 <= j < i && #[trigger] noise@[j]@ == lw@,
        decreases 23 - i,
    {
        let cand = str_to_chars(noise[i]);
        if crate::text::eq_chars(&w, &cand) {
            found = true;
        }
        i = i + 1;
    }
    assert(found == is_noise_word(lw@)) by {
        if is_noise_word(lw@) {
            if lw@ == "web"@ { assert(noise@[0]@ == lw@); }
            else if lw@ == "dl"@ { assert(noise@[1]@ == lw@); }
            else if lw@ == "ddp"@ { assert(noise@[2]@ == lw@); }
            else if lw@ == "atmos"@ { assert(noise@[3]@ == lw@); }
            else if lw@ == "h264"@ { assert(noise@[4]@ == lw@); }
            else if lw@ == "h265"@ { assert(noise@[5]@ == lw@); }
            else if lw@ == "mkv"@ { assert(noise@[6]@ == lw@); }
            else if lw@ == "mp4"@ { assert(noise@[7]@ == lw@); }
            else if lw@ == "avi"@ { assert(noise@[8]@ == lw@); }
            else if lw@ == "1080p"@ { assert(noise@[9]@ == lw@); }
            else if lw@ == "2160p"@ { assert(noise@[10]@ == lw@); }
            else if lw@ == "720p"@ { assert(noise@[11]@ == lw@); }
            else if lw@ == "480p"@ { assert(noise@[12]@ == lw@); }
            else if lw@ == "bluray"@ { assert(noise@[13]@ == lw@); }
            else if lw@ == "bdrip"@ { assert(noise@[14]@ == lw@); }
            else if lw@ == "webrip"@ { assert(noise@[15]@ == lw@); }
            else if lw@ == "x264"@ { assert(noise@[16]@ == lw@); }
            else if lw@ == "x265"@ { assert(noise@[17]@ == lw@); }
            else if lw@ == "aac"@ { assert(noise@[18]@ == lw@); }
            else if lw@ == "ac3"@ { assert(noise@[19]@ == lw@); }
            else if lw@ == "dts"@ { assert(noise@[20]@ == lw@); }
            else if lw@ == "flac"@ { assert(noise@[21]@ == lw@); }
            else { assert(noise@[22]@ == lw@); }
        }
    }
    found
}

pub open spec fn string_views(v: Seq<String>) -> Seq<Seq<char>> {
    v.map_values(|x: String| x@)
}

pub proof fn lemma_byte_len_bounds(s: Seq<char>)
    ensures
        s.len() <= byte_len(s) <= 4 * s.len(),
    decreases s.len(),
{
    if s.len() > 0 {
        lemma_byte_len_bounds(s.drop_last());
    }
}

/// Byte length of `s`, or 16 when it is longer than that.
fn capped_byte_len_step(cur: usize, c: char) -> (r: usize)
    requires
        cur <= 16,
    ensures
        r == if cur + utf8_width(c) > 16 { 16 } else { cur + utf8_width(c) },
{
    let w = utf8_width_exec(c);
    if cur + w > 16 {
        16
    } else {
        cur + w
    }
}

fn name_words_exec(s: &Vec<char>) -> (r: Vec<Vec<char>>)
    ensures
        views(r@) == name_words(s@),
{
    let n = s.len();
    let mut out: Vec<Vec<char>> = Vec::new();
    let mut ws: usize = 0;
    let mut i: usize = 0;
    let mut wbytes: usize = 0;
    assert(s@.subrange(0, 0) == Seq::<char>::empty());
    while i < n
        invariant
            ws <= i <= n,
            n == s@.len(),
            wbytes == if byte_len(s@.subrange(ws as int, i as int)) > 16 {
                16
            } else {
                byte_len(s@.subrange(ws as int, i as int))
            },
            name_words(s@) == views(out@) + words_from(s@, ws as int, i as int),
        decreases n - i,
    {
        let c = s[i];
        proof {
            lemma_byte_len_bounds(s@.subrange(ws as int, i as int));
        }
        if is_name_separator_exec(c) {
            let ghost before = out@;
            if wbytes > 2 {
                let w = crate::text::slice_of(s, ws, i);
                out.push(w);
                assert(views(out@) == views(before) + keep_word(s@.subrange(ws as int, i as int)));
            } else {
                assert(views(out@) == views(before) + keep_word(s@.subrange(ws as int, i as int)));
            }
            assert(views(before) + (keep_word(s@.subrange(ws as int, i as int)) + words_from(
                s@,
                i + 1,
                i + 1,
            )) == views(out@) + words_from(s@, i + 1, i + 1));
            ws = i + 1;
            wbytes = 0;
            assert(s@.subrange(ws as int, ws as int) == Seq::<char>::empty());
        } else {
            assert(s@.subrange(ws as int, i + 1).drop_last() == s@.subrange(ws as int, i as int));
            wbytes = capped_byte_len_step(wbytes, c);
        }
        i = i + 1;
    }
    let ghost before = out@;
    if wbytes > 2 {
        let w = crate::text::slice_of(s, ws, n);
        out.push(w);
    }
    assert(views(out@) == views(before) + keep_word(s@.subrange(ws as int, n as int)));
    out
}

fn byte_prefix_exec(s: &Vec<char>, limit: usize) -> (r: Vec<char>)
    ensures
        r@ == byte_prefix(s@, limit as int),
{
    let n = s.len();
    let mut total: u128 = 0;
    let mut i: usize = 0;
    assert(s@.subrange(0, 0) == Seq::<char>::empty());
    while i < n
        invariant
            i <= n,
            n == s@.len(),
            total as int == byte_len(s@.subrange(0, i as int)),
            total <= 4 * i,
        decreases n - i,
    {
        assert(s@.subrange(0, i + 1).drop_last() == s@.subrange(0, i as int));
        total = total + utf8_width_exec(s[i]) as u128;
        i = i + 1;
    }
    assert(s@.subrange(0, n as int) == s@);
    let mut hi: usize = n;
    while hi > 0 && total > limit as u128
        invariant
            hi <= n,
            n == s@.len(),
            total as int == byte_len(s@.subrange(0, hi as int)),
            byte_prefix(s@, limit as int) == byte_prefix(s@.subrange(0, hi as int), limit as int),
        decreases hi,
    {
        assert(s@.subrange(0, hi as int).drop_last() == s@.subrange(0, hi - 1));
        proof {
            lemma_byte_len_bounds(s@.subrange(0, hi - 1));
        }
        total = total - utf8_width_exec(s[hi - 1]) as u128;
        hi = hi - 1;
    }
    crate::text::slice_of(s, 0, hi)
}

impl ExternalSubtitleParser {
    /// Keywords of a video file name, used to match subtitle files whose
    /// names differ from the video's.
    pub fn extract_keywords(filename: &str) -> (r: Vec<String>)
        ensures
            string_views(r@) == keywords_spec(filename@),
    {
        let name = str_to_chars(filename);
        let words = name_words_exec(&name);
        let mut kept: Vec<String> = Vec::new();
        let mut k: usize = 0;
        assert(views(words@).subrange(0, 0).len() == 0);
        while k < words.len()
            invariant
                k <= words@.len(),
                string_views(kept@) == filter_noise(views(words@).subrange(0, k as int)),
            decreases words.len() - k,
        {
            let ghost pre = views(words@).subrange(0, k as int);
            let ghost post = views(words@).subrange(0, k + 1);
            assert(post.drop_last() == pre);
            assert(post.last() == words@[k as int]@);
            let w = chars_to_string(&words[k]);
            let lw = lowercase(w.as_str());
            if !is_noise(lw.as_str()) {
                let ghost before = kept@;
                kept.push(w);
                assert(string_views(kept@) == string_views(before).push(words@[k as int]@));
            }
            k = k + 1;
        }
        assert(views(words@).subrange(0, words@.len() as int) == views(words@));
        let mut total: u128 = 0;
        let mut i: usize = 0;
        assert(name@.subrange(0, 0) == Seq::<char>::empty());
        while i < name.len()
            invariant
                i <= name@.len(),
                total as int == byte_len(name@.subrange(0, i as int)),
                total <= 4 * i,
            decreases name.len() - i,
        {
            assert(name@.subrange(0, i + 1).drop_last() == name@.subrange(0, i as int));
            total = total + utf8_width_exec(name[i]) as u128;
            i = i + 1;
        }
        assert(name@.subrange(0, name@.len() as int) == name@);
        if kept.len() < 2 && total > 10 {
            let p = byte_prefix_exec(&name, 10);
            let ghost before = kept@;
            kept.push(chars_to_string(&p));
            assert(string_views(kept@) == string_views(before).push(p@));
        }
        kept
    }
}

/// Format of a subtitle file by its lower-cased extension.
pub open spec fn subtitle_format_spec(ext: Seq<char>) -> Option<SubtitleFormat> {
    if ext == "srt"@ {
        Some(SubtitleFormat::Srt)
    } else if ext == "ass"@ || ext == "ssa"@ {
        Some(SubtitleFormat::Ass)
    } else if ext == "vtt"@ {
        Some(SubtitleFormat::Vtt)
    } else {
        None
    }
}

pub open spec fn cues_spec(fmt: SubtitleFormat, content: Seq<char>) -> Seq<CueModel> {
    match fmt {
        SubtitleFormat::Srt => srt_cues_spec(content),
        SubtitleFormat::Ass => ass_cues_spec(content),
        SubtitleFormat::Vtt => vtt_cues_spec(content),
    }
}

fn eq_str(a: &str, b: &str) -> (r: bool)
    ensures
        r == (a@ == b@),
{
    crate::text::eq_chars(&str_to_chars(a), &str_to_chars(b))
}

impl ExternalSubtitleParser {
    /// The parser for a lower-cased file extension.
    pub fn subtitle_format_of(ext_lower: &str) -> (r: Option<SubtitleFormat>)
        ensures
            r == subtitle_format_spec(ext_lower@),
    {
        if eq_str(ext_lower, "srt") {
            Some(SubtitleFormat::Srt)
        } else if eq_str(ext_lower, "ass") || eq_str(ext_lower, "ssa") {
            Some(SubtitleFormat::Ass)
        } else if eq_str(ext_lower, "vtt") {
            Some(SubtitleFormat::Vtt)
        } else {
            None
        }
    }

    /// Parses subtitle text of a known format.
    pub fn parse_subtitle_text(content: &str, format: SubtitleFormat) -> (r: Vec<SubtitleFrame>)
        ensures
            cue_views(r@) == cues_spec(format, content@),
    {
        let parsed = match format {
            SubtitleFormat::Srt => Self::parse_srt(content),
            SubtitleFormat::Ass => Self::parse_ass(content),
            SubtitleFormat::Vtt => Self::parse_vtt(content),
        };
        match parsed {
            Ok(v) => v,
            Err(_) => Vec::new(),
        }
    }

    /// Parses the contents of a subtitle file, choosing the parser by the
    /// file's extension (compared lower-cased).
    pub fn parse_subtitle_content(content: &str, extension: &str) -> (r: Result<
        Vec<SubtitleFrame>,
        PlayerError,
    >)
        ensures
            match subtitle_format_spec(lower_of(extension@)) {
                Some(f) => r is Ok && cue_views(r->Ok_0@) == cues_spec(f, content@),
                None => r is Err && r->Err_0 is UnsupportedFormat,
            },
    {
        let ext = lowercase(extension);
        match Self::subtitle_format_of(ext.as_str()) {
            Some(f) => Ok(Self::parse_subtitle_text(content, f)),
            None => Err(PlayerError::UnsupportedFormat(ext)),
        }
    }
}

/// Extensions of the subtitle files that are looked for, in order.
pub open spec fn subtitle_exts() -> Seq<Seq<char>> {
    seq!["srt"@, "ass"@, "ssa"@, "vtt"@]
}

/// Language tags tried between stem and extension, in order.
pub open spec fn language_tags() -> Seq<Seq<char>> {
    seq!["zh"@, "en"@, "chs"@, "cht"@, "zh-cn"@, "zh-tw"@, "ja"@, "ko"@, "chs-eng"@]
}

/// `prefix.ext` for each subtitle extension.
pub open spec fn ext_names(prefix: Seq<char>) -> Seq<Seq<char>> {
    subtitle_exts().map_values(|e: Seq<char>| prefix.push('.') + e)
}

/// `stem.tag.ext` for each tag, and each extension within a tag.
pub open spec fn tagged_names(stem: Seq<char>, tags: Seq<Seq<char>>) -> Seq<Seq<char>>
    decreases tags.len(),
{
    if tags.len() == 0 {
        Seq::<Seq<char>>::empty()
    } else {
        tagged_names(stem, tags.drop_last()) + ext_names(stem.push('.') + tags.last())
    }
}

/// File names looked for beside a video, best first: `stem.ext`, then
/// `stem.tag.ext` for each language tag.
pub open spec fn candidate_names_spec(stem: Seq<char>) -> Seq<Seq<char>> {
    ext_names(stem) + tagged_names(stem, language_tags())
}

fn push_ext_names(out: &mut Vec<String>, prefix: &Vec<char>)
    ensures
        string_views(final(out)@) == string_views(old(out)@) + ext_names(prefix@),
{
    let exts = ["srt", "ass", "ssa", "vtt"];
    let mut i: usize = 0;
    assert(exts@.map_values(|e: &str| e@) == subtitle_exts());
    while i < 4
        invariant
            i <= 4,
            exts@.map_values(|e: &str| e@) == subtitle_exts(),
            string_views(out@) == string_views(old(out)@) + ext_names(prefix@).subrange(0, i as int),
        decreases 4 - i,
    {
        let mut name = crate::text::copy_chars(prefix);
        name.push('.');
        push_all(&mut name, &str_to_chars(exts[i]));
        let ghost before = out@;
        assert(exts@.map_values(|e: &str| e@)[i as int] == exts@[i as int]@);
        out.push(chars_to_string(&name));
        assert(string_views(out@) == string_views(before).push(name@));
        assert(ext_names(prefix@).subrange(0, i + 1) == ext_names(prefix@).subrange(0, i as int).push(
            ext_names(prefix@)[i as int],
        ));
        i = i + 1;
    }
    assert(ext_names(prefix@).subrange(0, 4) == ext_names(prefix@));
}

impl ExternalSubtitleParser {
    /// Names of the subtitle files to look for beside a video whose file
    /// name without extension is `stem`, in order of preference.
    pub fn candidate_names(stem: &str) -> (r: Vec<String>)
        ensures
            string_views(r@) == candidate_names_spec(stem@),
    {
        let st = str_to_chars(stem);
        let mut out: Vec<String> = Vec::new();
        push_ext_names(&mut out, &st);
        let tags = ["zh", "en", "chs", "cht", "zh-cn", "zh-tw", "ja", "ko", "chs-eng"];
        assert(tags@.map_values(|e: &str| e@) == language_tags());
        let mut i: usize = 0;
        assert(language_tags().subrange(0, 0).len() == 0);
        while i < 9
            invariant
                i <= 9,
                st@ == stem@,
                tags@.map_values(|e: &str| e@) == language_tags(),
                string_views(out@) == ext_names(stem@) + tagged_names(
                    stem@,
                    language_tags().subrange(0, i as int),
                ),
            decreases 9 - i,
        {
            let mut prefix = crate::text::copy_chars(&st);
            prefix.push('.');
            push_all(&mut prefix, &str_to_chars(tags[i]));
            assert(tags@.map_values(|e: &str| e@)[i as int] == tags@[i as int]@);
            let ghost pre = language_tags().subrange(0, i as int);
            let ghost post = language_tags().subrange(0, i + 1);
            assert(post.drop_last() == pre);
            push_ext_names(&mut out, &prefix);
            i = i + 1;
        }
        assert(language_tags().subrange(0, 9) == language_tags());
        out
    }
}

/// Number of keywords that occur in a (lower-cased) file name.
pub open spec fn keyword_hits_spec(name: Seq<char>, keywords: Seq<Seq<char>>) -> nat
    decreases keywords.len(),
{
    if keywords.len() == 0 {
        0
    } else {
        keyword_hits_spec(name, keywords.drop_last()) + if contains_spec(name, keywords.last()) {
            1nat
        } else {
            0nat
        }
    }
}

/// Enough keywords matched: at least half of them, and at least one.
pub open spec fn enough_hits_spec(hits: int, n: int) -> bool {
    hits >= if n / 2 > 1 { n / 2 } else { 1 }
}

/// A (lower-cased) name ends with one of the subtitle extensions.
pub open spec fn is_subtitle_name_spec(name: Seq<char>) -> bool {
    ends_with_spec(name, ".srt"@) || ends_with_spec(name, ".ass"@) || ends_with_spec(
        name,
        ".ssa"@,
    ) || ends_with_spec(name, ".vtt"@)
}

pub open spec fn lower_all(v: Seq<Seq<char>>) -> Seq<Seq<char>> {
    v.map_values(|x: Seq<char>| lower_of(x))
}

/// A directory entry is taken as the video's subtitle when its lower-cased
/// name has a subtitle extension and holds enough lower-cased keywords.
pub open spec fn fuzzy_match_spec(entry: Seq<char>, keywords: Seq<Seq<char>>) -> bool {
    is_subtitle_name_spec(lower_of(entry)) && enough_hits_spec(
        keyword_hits_spec(lower_of(entry), lower_all(keywords)) as int,
        keywords.len() as int,
    )
}

impl ExternalSubtitleParser {
    pub fn is_subtitle_name(name_lower: &str) -> (r: bool)
        ensures
            r == is_subtitle_name_spec(name_lower@),
    {
        let n = str_to_chars(name_lower);
        ends_with(&n, &str_to_chars(".srt")) || ends_with(&n, &str_to_chars(".ass")) || ends_with(
            &n,
            &str_to_chars(".ssa"),
        ) || ends_with(&n, &str_to_chars(".vtt"))
    }

    /// How many keywords occur in a name (both already lower-cased).
    pub fn keyword_hits(name_lower: &str, keywords_lower: &Vec<String>) -> (r: usize)
        ensures
            r == keyword_hits_spec(name_lower@, string_views(keywords_lower@)),
    {
        let n = str_to_chars(name_lower);
        let mut hits: usize = 0;
        let mut i: usize = 0;
        assert(string_views(keywords_lower@).subrange(0, 0).len() == 0);
        while i < keywords_lower.len()
            invariant
                i <= keywords_lower@.len(),
                hits <= i,
                n@ == name_lower@,
                hits == keyword_hits_spec(
                    name_lower@,
                    string_views(keywords_lower@).subrange(0, i as int),
                ),
            decreases keywords_lower.len() - i,
        {
            let ghost pre = string_views(keywords_lower@).subrange(0, i as int);
            let ghost post = string_views(keywords_lower@).subrange(0, i + 1);
            assert(post.drop_last() == pre);
            assert(post.last() == keywords_lower@[i as int]@);
            let k = str_to_chars(keywords_lower[i].as_str());
            if contains(&n, &k) {
                hits = hits + 1;
            }
            i = i + 1;
        }
        assert(string_views(keywords_lower@).subrange(0, keywords_lower@.len() as int)
            == string_views(keywords_lower@));
        hits
    }

    pub fn enough_hits(hits: usize, n_keywords: usize) -> (r: bool)
        ensures
            r == enough_hits_spec(hits as int, n_keywords as int),
    {
        let half = n_keywords / 2;
        hits >= if half > 1 {
            half
        } else {
            1
        }
    }

    /// Whether a file found beside a video is taken as its subtitle when no
    /// file is named after the video.
    pub fn is_fuzzy_match(entry_name: &str, video_keywords: &Vec<String>) -> (r: bool)
        ensures
            r == fuzzy_match_spec(entry_name@, string_views(video_keywords@)),
    {
        let entry_lower = lowercase(entry_name);
        if !Self::is_subtitle_name(entry_lower.as_str()) {
            return false;
        }
        let mut lowered: Vec<String> = Vec::new();
        let mut i: usize = 0;
        while i < video_keywords.len()
            invariant
                i <= video_keywords@.len(),
                string_views(lowered@) == lower_all(string_views(video_keywords@).subrange(
                    0,
                    i as int,
                )),
            decreases video_keywords.len() - i,
        {
            let lk = lowercase(video_keywords[i].as_str());
            let ghost before = lowered@;
            lowered.push(lk);
            assert(string_views(lowered@) == string_views(before).push(lk@));
            assert(lower_all(string_views(video_keywords@).subrange(0, i + 1)) == lower_all(
                string_views(video_keywords@).subrange(0, i as int),
            ).push(lower_of(video_keywords@[i as int]@)));
            i = i + 1;
        }
        assert(string_views(video_keywords@).subrange(0, video_keywords@.len() as int)
            == string_views(video_keywords@));
        let hits = Self::keyword_hits(entry_lower.as_str(), &lowered);
        Self::enough_hits(hits, video_keywords.len())
    }
}

/// Cues in order of their start.
pub open spec fn sorted_by_start(s: Seq<SubtitleFrame>) -> bool {
    forall|i: int, j: int| 0 <= i < j < s.len() ==> s[i].pts <= s[j].pts
}

/// Orders cues by start time; the result holds the same cues.
pub fn sort_by_start(cues: Vec<SubtitleFrame>) -> (r: Vec<SubtitleFrame>)
    ensures
        sorted_by_start(r@),
        r@.to_multiset() == cues@.to_multiset(),
{
    broadcast use vstd::seq_lib::group_to_multiset_ensures, vstd::multiset::group_multiset_axioms;

    let mut input = cues;
    let mut out: Vec<SubtitleFrame> = Vec::new();
    let ghost all = input@;
    assert(out@.to_multiset() =~= Multiset::<SubtitleFrame>::empty());
    while input.len() > 0
        invariant
            sorted_by_start(out@),
            out@.to_multiset().add(input@.to_multiset()) == all.to_multiset(),
        decreases input@.len(),
    {
        let ghost before_in = input@;
        let x = input.pop().unwrap();
        assert(before_in == input@.push(x));
        let mut j: usize = 0;
        while j < out.len() && out[j].pts < x.pts
            invariant
                j <= out@.len(),
                forall|k: int| 0 <= k < j ==> out@[k].pts < x.pts,
            decreases out@.len() - j,
        {
            j = j + 1;
        }
        let ghost before_out = out@;
        out.insert(j, x);
        assert(out@ == before_out.insert(j as int, x));
        assert(sorted_by_start(out@)) by {
            assert forall|a: int, b: int| 0 <= a < b < out@.len() implies out@[a].pts
                <= out@[b].pts by {
                if b < j {
                } else if b == j {
                    assert(out@[a] == before_out[a]);
                } else if a < j {
                    assert(out@[a] == before_out[a]);
                    assert(out@[b] == before_out[b - 1]);
                    if j < before_out.len() {
                        assert(before_out[j as int].pts >= x.pts);
                    }
                } else if a == j {
                    assert(out@[b] == before_out[b - 1]);
                    assert(before_out[j as int].pts >= x.pts);
                } else {
                    assert(out@[a] == before_out[a - 1]);
                    assert(out@[b] == before_out[b - 1]);
                }
            }
        }
        proof {
            vstd::seq_lib::to_multiset_insert(before_out, j as int, x);
            vstd::seq_lib::to_multiset_build(input@, x);
        }
        assert(out@.to_multiset() == before_out.to_multiset().insert(x));
        assert(before_in.to_multiset() =~= input@.to_multiset().insert(x));
        assert(out@.to_multiset().add(input@.to_multiset()) =~= before_out.to_multiset().add(
            before_in.to_multiset(),
        ));
    }
    assert(input@.to_multiset() =~= Multiset::<SubtitleFrame>::empty());
    assert(out@.to_multiset().add(input@.to_multiset()) =~= out@.to_multiset());
    out
}

} // verus!

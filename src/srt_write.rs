//! Writing cues back as SRT text, and the proof that the SRT parser reads
//! that text back into the same cues.
use vstd::prelude::*;
use crate::media::SubtitleFrame;
use crate::subtitle::{arrow, block_fold, block_init, block_step, clock_ms_spec};
use crate::subtitle::{cue_of, cue_views, fit_i64, sole_arrow_at};
use crate::subtitle::{srt_cues_spec, srt_timestamp_spec, time_line_spec, timestamp_spec};
use crate::subtitle::{BlockState, CueModel, SubtitleFormat};
use crate::text::{all_digits, chars_to_string, contains_spec, digits_value, is_digit, is_ws};
use crate::text::{join_spec, lines_spec, occurs_at, parse_i64_spec, split_spec};
use crate::text::{trim_end_spec, trim_spec, trim_start_spec};

verus! {

pub open spec fn digit_char(d: int) -> char {
    if d == 0 {
        '0'
    } else if d == 1 {
        '1'
    } else if d == 2 {
        '2'
    } else if d == 3 {
        '3'
    } else if d == 4 {
        '4'
    } else if d == 5 {
        '5'
    } else if d == 6 {
        '6'
    } else if d == 7 {
        '7'
    } else if d == 8 {
        '8'
    } else {
        '9'
    }
}

/// Decimal digits of `n`, zero-padded to at least `w` digits.
pub open spec fn dec_pad(n: nat, w: nat) -> Seq<char>
    decreases n + w,
{
    if n < 10 && w <= 1 {
        seq![digit_char(n as int)]
    } else {
        dec_pad(n / 10, if w > 0 { (w - 1) as nat } else { 0 }) + seq![digit_char((n % 10) as int)]
    }
}

/// An SRT timestamp `HH:MM:SS,mmm` for `t` milliseconds (hours may take
/// more than two digits).
pub open spec fn srt_ts_text(t: nat) -> Seq<char> {
    dec_pad(t / 3600000, 2) + seq![':'] + dec_pad((t / 60000) % 60, 2) + seq![':'] + dec_pad(
        (t / 1000) % 60,
        2,
    ) + seq![','] + dec_pad(t % 1000, 3)
}

pub proof fn lemma_digit_char(d: int)
    requires
        0 <= d < 10,
    ensures
        is_digit(digit_char(d)),
        digit_char(d) as int - '0' as int == d,
{
}

pub proof fn lemma_dec_pad(n: nat, w: nat)
    ensures
        dec_pad(n, w).len() >= 1,
        all_digits(dec_pad(n, w)),
        digits_value(dec_pad(n, w)) == n,
    decreases n + w,
{
    let s = dec_pad(n, w);
    if n < 10 && w <= 1 {
        lemma_digit_char(n as int);
        assert(s.drop_last().len() == 0);
        assert(digits_value(s.drop_last()) == 0);
        assert(digits_value(s) == 10 * digits_value(s.drop_last()) + crate::text::digit_value(
            s.last(),
        ));
    } else {
        let w2: nat = if w > 0 { (w - 1) as nat } else { 0 };
        lemma_dec_pad(n / 10, w2);
        lemma_digit_char((n % 10) as int);
        let p = dec_pad(n / 10, w2);
        assert(s.drop_last() == p);
        assert(s.last() == digit_char((n % 10) as int));
        assert(digits_value(s) == 10 * digits_value(p) + crate::text::digit_value(s.last()));
        assert forall|i: int| 0 <= i < s.len() implies is_digit(#[trigger] s[i]) by {
            if i < p.len() {
                assert(s[i] == p[i]);
            }
        }
    }
}

/// A zero-padded decimal reads back as its value.
pub proof fn lemma_dec_pad_parses(n: nat, w: nat)
    requires
        n <= i64::MAX,
    ensures
        parse_i64_spec(dec_pad(n, w)) == Some(n as i64),
{
    lemma_dec_pad(n, w);
    let s = dec_pad(n, w);
    assert(is_digit(s[0]));
}

/// Splitting text with no separator gives the text itself.
pub proof fn lemma_split_none(x: Seq<char>, sep: char)
    requires
        !x.contains(sep),
    ensures
        split_spec(x, sep) == seq![x],
    decreases x.len(),
{
    if x.len() > 0 {
        assert(!x.drop_last().contains(sep)) by {
            if x.drop_last().contains(sep) {
                let i = choose|i: int| 0 <= i < x.drop_last().len() && x.drop_last()[i] == sep;
                assert(x[i] == sep);
            }
        }
        lemma_split_none(x.drop_last(), sep);
        assert(x.last() != sep) by {
            assert(x[x.len() - 1] == x.last());
        }
        assert(x.drop_last().push(x.last()) == x);
        let prev = split_spec(x.drop_last(), sep);
        assert(prev.len() == 1 && prev.last() == x.drop_last());
        assert(split_spec(x, sep) == prev.update(prev.len() - 1, prev.last().push(x.last())));
        assert(seq![x.drop_last()].update(0, x.drop_last().push(x.last())) == seq![x]);
    } else {
        assert(x == Seq::<char>::empty());
    }
}

/// A separator after text with no separator splits off that text.
pub proof fn lemma_split_front(x: Seq<char>, sep: char, y: Seq<char>)
    requires
        !x.contains(sep),
    ensures
        split_spec(x + seq![sep] + y, sep) == seq![x] + split_spec(y, sep),
    decreases y.len(),
{
    crate::text::lemma_split_nonempty(y, sep);
    if y.len() == 0 {
        lemma_split_none(x, sep);
        assert(x + seq![sep] + y == x.push(sep));
        assert((x + seq![sep] + y).drop_last() == x);
    } else {
        let z = x + seq![sep] + y;
        assert(z.drop_last() == x + seq![sep] + y.drop_last());
        assert(z.last() == y.last());
        lemma_split_front(x, sep, y.drop_last());
        crate::text::lemma_split_nonempty(y.drop_last(), sep);
        let q = split_spec(y.drop_last(), sep);
        if y.last() != sep {
            assert((seq![x] + q).update(q.len() as int, q.last().push(y.last())) == seq![x]
                + q.update(q.len() - 1, q.last().push(y.last())));
        } else {
            assert((seq![x] + q).push(Seq::<char>::empty()) == seq![x] + q.push(
                Seq::<char>::empty(),
            ));
        }
    }
}

/// The written timestamp reads back as the same number of milliseconds.
pub proof fn lemma_srt_ts_round_trip(t: nat)
    requires
        t <= i64::MAX,
    ensures
        srt_timestamp_spec(srt_ts_text(t)) == Some(t as i64),
{
    let h = t / 3600000;
    let m = (t / 60000) % 60;
    let s = (t / 1000) % 60;
    let f = t % 1000;
    let hs = dec_pad(h, 2);
    let ms = dec_pad(m, 2);
    let ss = dec_pad(s, 2);
    let fs = dec_pad(f, 3);
    lemma_dec_pad(h, 2);
    lemma_dec_pad(m, 2);
    lemma_dec_pad(s, 2);
    lemma_dec_pad(f, 3);
    let hms = hs + seq![':'] + ms + seq![':'] + ss;
    assert(srt_ts_text(t) == hms + seq![','] + fs);
    assert(!hms.contains(',')) by {
        if hms.contains(',') {
            let i = choose|i: int| 0 <= i < hms.len() && hms[i] == ',';
            if i < hs.len() {
                assert(hms[i] == hs[i]);
                assert(is_digit(hs[i]));
            } else if i == hs.len() {
            } else if i < hs.len() + 1 + ms.len() {
                assert(hms[i] == ms[i - hs.len() - 1]);
                assert(is_digit(ms[i - hs.len() - 1]));
            } else if i == hs.len() + 1 + ms.len() {
            } else {
                assert(hms[i] == ss[i - hs.len() - 2 - ms.len()]);
                assert(is_digit(ss[i - hs.len() - 2 - ms.len()]));
            }
        }
    }
    assert(!fs.contains(',')) by {
        if fs.contains(',') {
            let i = choose|i: int| 0 <= i < fs.len() && fs[i] == ',';
            assert(is_digit(fs[i]));
        }
    }
    lemma_split_front(hms, ',', fs);
    lemma_split_none(fs, ',');
    assert(!hs.contains(':')) by {
        if hs.contains(':') {
            let i = choose|i: int| 0 <= i < hs.len() && hs[i] == ':';
            assert(is_digit(hs[i]));
        }
    }
    assert(!ms.contains(':')) by {
        if ms.contains(':') {
            let i = choose|i: int| 0 <= i < ms.len() && ms[i] == ':';
            assert(is_digit(ms[i]));
        }
    }
    assert(!ss.contains(':')) by {
        if ss.contains(':') {
            let i = choose|i: int| 0 <= i < ss.len() && ss[i] == ':';
            assert(is_digit(ss[i]));
        }
    }
    assert(hms == hs + seq![':'] + (ms + seq![':'] + ss));
    lemma_split_front(hs, ':', ms + seq![':'] + ss);
    lemma_split_front(ms, ':', ss);
    lemma_split_none(ss, ':');
    let parts = split_spec(hms, ':');
    assert(parts == seq![hs, ms, ss]);
    lemma_dec_pad_parses(h, 2);
    lemma_dec_pad_parses(m, 2);
    lemma_dec_pad_parses(s, 2);
    lemma_dec_pad_parses(f, 3);
    assert(h * 3600000 + m * 60000 + s * 1000 + f * 1 == t) by (nonlinear_arith)
        requires
            h == t / 3600000,
            m == (t / 60000) % 60,
            s == (t / 1000) % 60,
            f == t % 1000,
            t >= 0,
    ;
    assert(clock_ms_spec(parts, fs, 1) == fit_i64(t as int));
}

/// Characters of a written timestamp: digits, `:` and `,`.
pub open spec fn ts_char(c: char) -> bool {
    is_digit(c) || c == ':' || c == ','
}

pub proof fn lemma_ts_chars(t: nat)
    ensures
        srt_ts_text(t).len() >= 1,
        forall|i: int| 0 <= i < srt_ts_text(t).len() ==> ts_char(#[trigger] srt_ts_text(t)[i]),
        is_digit(srt_ts_text(t)[0]),
        is_digit(srt_ts_text(t).last()),
{
    let hs = dec_pad(t / 3600000, 2);
    let ms = dec_pad((t / 60000) % 60, 2);
    let ss = dec_pad((t / 1000) % 60, 2);
    let fs = dec_pad(t % 1000, 3);
    lemma_dec_pad(t / 3600000, 2);
    lemma_dec_pad((t / 60000) % 60, 2);
    lemma_dec_pad((t / 1000) % 60, 2);
    lemma_dec_pad(t % 1000, 3);
    let x = srt_ts_text(t);
    assert(x == hs + seq![':'] + ms + seq![':'] + ss + seq![','] + fs);
    assert forall|i: int| 0 <= i < x.len() implies ts_char(#[trigger] x[i]) by {
        let a = hs.len() as int;
        let b = a + 1 + ms.len();
        let c = b + 1 + ss.len();
        if i < a {
            assert(x[i] == hs[i]);
        } else if i == a {
        } else if i < b {
            assert(x[i] == ms[i - a - 1]);
        } else if i == b {
        } else if i < c {
            assert(x[i] == ss[i - b - 1]);
        } else if i == c {
        } else {
            assert(x[i] == fs[i - c - 1]);
        }
    }
    assert(x[0] == hs[0]);
    assert(x.last() == fs.last());
}

/// Milliseconds written for a cue time; a negative time is written as 0.
pub open spec fn ts_value(t: i64) -> nat {
    if t < 0 {
        0
    } else {
        t as nat
    }
}

/// The timing line of a cue.
pub open spec fn time_line_text(a: i64, b: i64) -> Seq<char> {
    srt_ts_text(ts_value(a)) + seq![' ', '-', '-', '>', ' '] + srt_ts_text(ts_value(b))
}

/// The lines of one SRT block: number, timing, text lines, blank line.
pub open spec fn block_lines(k: nat, c: CueModel) -> Seq<Seq<char>> {
    seq![dec_pad(k + 1, 1), time_line_text(c.pts, c.end_pts)] + split_spec(c.text, '\n') + seq![
        Seq::<char>::empty(),
    ]
}

pub open spec fn all_block_lines(cues: Seq<CueModel>) -> Seq<Seq<char>>
    decreases cues.len(),
{
    if cues.len() == 0 {
        Seq::empty()
    } else {
        all_block_lines(cues.drop_last()) + block_lines((cues.len() - 1) as nat, cues.last())
    }
}

/// Lines each ended by a line break.
pub open spec fn unlines(ls: Seq<Seq<char>>) -> Seq<char>
    decreases ls.len(),
{
    if ls.len() == 0 {
        Seq::empty()
    } else {
        unlines(ls.drop_last()) + ls.last().push('\n')
    }
}

/// SRT text of a cue list.
pub open spec fn srt_text_spec(cues: Seq<CueModel>) -> Seq<char> {
    unlines(all_block_lines(cues))
}

/// A cue whose times and text SRT carries unchanged: times not negative,
/// and lines of text that are neither blank, nor padded, nor all digits,
/// nor hold an arrow. (SRT has no duration field: a cue read back lasts
/// from its start to its end.)
pub open spec fn srt_safe(c: CueModel) -> bool {
    &&& c.pts >= 0
    &&& c.end_pts >= 0
    &&& forall|i: int|
        0 <= i < split_spec(c.text, '\n').len() ==> {
            let l = #[trigger] split_spec(c.text, '\n')[i];
            &&& l.len() > 0
            &&& trim_spec(l) == l
            &&& !all_digits(l)
            &&& !contains_spec(l, arrow())
        }
}

pub proof fn lemma_unlines_concat(a: Seq<Seq<char>>, b: Seq<Seq<char>>)
    ensures
        unlines(a + b) == unlines(a) + unlines(b),
    decreases b.len(),
{
    if b.len() == 0 {
        assert(a + b == a);
    } else {
        assert((a + b).drop_last() == a + b.drop_last());
        lemma_unlines_concat(a, b.drop_last());
    }
}

pub proof fn lemma_unlines_split(t: Seq<char>)
    ensures
        unlines(split_spec(t, '\n')) == t.push('\n'),
    decreases t.len(),
{
    crate::text::lemma_split_nonempty(t, '\n');
    if t.len() > 0 {
        let p = split_spec(t.drop_last(), '\n');
        crate::text::lemma_split_nonempty(t.drop_last(), '\n');
        lemma_unlines_split(t.drop_last());
        if t.last() == '\n' {
            let q = p.push(Seq::<char>::empty());
            assert(split_spec(t, '\n') == q);
            assert(q.drop_last() == p);
            assert(q.last() == Seq::<char>::empty());
            assert(unlines(q) == unlines(p) + Seq::<char>::empty().push('\n'));
            assert(t.drop_last().push('\n') == t);
            assert(t.drop_last().push('\n') + Seq::<char>::empty().push('\n') == t.push('\n'));
        } else {
            let q = p.update(p.len() - 1, p.last().push(t.last()));
            assert(split_spec(t, '\n') == q);
            assert(q.drop_last() == p.drop_last());
            assert(q.last() == p.last().push(t.last()));
            let a = unlines(p.drop_last());
            assert(unlines(p) == a + p.last().push('\n'));
            assert(a + p.last().push('\n') == (a + p.last()).push('\n'));
            assert((a + p.last()).push('\n').drop_last() == a + p.last());
            assert(t.drop_last().push('\n').drop_last() == t.drop_last());
            assert(a + p.last() == t.drop_last());
            assert(unlines(q) == a + p.last().push(t.last()).push('\n'));
            assert(a + p.last().push(t.last()).push('\n') == (a + p.last()).push(t.last()).push(
                '\n',
            ));
        }
        assert(t.drop_last().push(t.last()) == t);
    } else {
        assert(t == Seq::<char>::empty());
        let one = seq![Seq::<char>::empty()];
        assert(split_spec(t, '\n') == one);
        assert(one.drop_last() == Seq::<Seq<char>>::empty());
        assert(unlines(Seq::<Seq<char>>::empty()) == Seq::<char>::empty());
        assert(one.last() == Seq::<char>::empty());
        assert(unlines(one) == Seq::<char>::empty() + Seq::<char>::empty().push('\n'));
        assert(Seq::<char>::empty() + Seq::<char>::empty().push('\n') == t.push('\n'));
    }
}

pub proof fn lemma_join_split(t: Seq<char>, sep: char)
    ensures
        join_spec(split_spec(t, sep), sep) == t,
    decreases t.len(),
{
    crate::text::lemma_split_nonempty(t, sep);
    if t.len() > 0 {
        let p = split_spec(t.drop_last(), sep);
        crate::text::lemma_split_nonempty(t.drop_last(), sep);
        lemma_join_split(t.drop_last(), sep);
        if t.last() == sep {
            assert(p.push(Seq::<char>::empty()).drop_last() == p);
        } else {
            let q = p.update(p.len() - 1, p.last().push(t.last()));
            assert(q.drop_last() == p.drop_last());
            if p.len() == 1 {
                assert(join_spec(p, sep) == p[0]);
            } else {
                assert(join_spec(p, sep) == join_spec(p.drop_last(), sep).push(sep) + p.last());
            }
        }
        assert(t.drop_last().push(t.last()) == t);
    } else {
        assert(t == Seq::<char>::empty());
    }
}

pub proof fn lemma_split_pieces(t: Seq<char>, sep: char)
    ensures
        forall|i: int|
            0 <= i < split_spec(t, sep).len() ==> !(#[trigger] split_spec(t, sep)[i]).contains(
                sep,
            ),
    decreases t.len(),
{
    crate::text::lemma_split_nonempty(t, sep);
    if t.len() > 0 {
        lemma_split_pieces(t.drop_last(), sep);
        crate::text::lemma_split_nonempty(t.drop_last(), sep);
        let p = split_spec(t.drop_last(), sep);
        if t.last() != sep {
            let q = p.update(p.len() - 1, p.last().push(t.last()));
            assert forall|i: int| 0 <= i < q.len() implies !(#[trigger] q[i]).contains(sep) by {
                if i == q.len() - 1 {
                    let l = p.last().push(t.last());
                    if l.contains(sep) {
                        let j = choose|j: int| 0 <= j < l.len() && l[j] == sep;
                        if j < p.last().len() {
                            assert(p.last()[j] == sep);
                            assert(p[p.len() - 1] == p.last());
                        }
                    }
                }
            }
        } else {
            let q = p.push(Seq::<char>::empty());
            assert forall|i: int| 0 <= i < q.len() implies !(#[trigger] q[i]).contains(sep) by {
                if i < p.len() {
                    assert(q[i] == p[i]);
                }
            }
        }
    }
}

/// Appending text without a separator after a separator adds one piece.
pub proof fn lemma_split_back(x: Seq<char>, sep: char, y: Seq<char>)
    requires
        !y.contains(sep),
    ensures
        split_spec(x.push(sep) + y, sep) == split_spec(x, sep).push(y),
    decreases y.len(),
{
    if y.len() == 0 {
        assert(y == Seq::<char>::empty());
        assert(x.push(sep) + y == x.push(sep));
        assert(x.push(sep).drop_last() == x);
        assert(x.push(sep).last() == sep);
        assert(split_spec(x.push(sep), sep) == split_spec(x, sep).push(Seq::<char>::empty()));
    } else {
        assert(!y.drop_last().contains(sep)) by {
            if y.drop_last().contains(sep) {
                let i = choose|i: int| 0 <= i < y.drop_last().len() && y.drop_last()[i] == sep;
                assert(y[i] == sep);
            }
        }
        lemma_split_back(x, sep, y.drop_last());
        let z = x.push(sep) + y;
        assert(z.drop_last() == x.push(sep) + y.drop_last());
        assert(z.last() == y.last());
        assert(y.last() != sep) by {
            assert(y[y.len() - 1] == y.last());
        }
        let p = split_spec(x, sep).push(y.drop_last());
        assert(split_spec(z, sep) == p.update(p.len() - 1, p.last().push(y.last())));
        assert(p.update(p.len() - 1, p.last().push(y.last())) == split_spec(x, sep).push(y)) by {
            assert(y.drop_last().push(y.last()) == y);
        }
    }
}

/// Lines without breaks, each ended by a break, then `y`: split gives the
/// lines and `y`.
pub proof fn lemma_split_unlines(ls: Seq<Seq<char>>, y: Seq<char>)
    requires
        forall|i: int| 0 <= i < ls.len() ==> !(#[trigger] ls[i]).contains('\n'),
        !y.contains('\n'),
    ensures
        split_spec(unlines(ls) + y, '\n') == ls.push(y),
    decreases ls.len(),
{
    if ls.len() == 0 {
        assert(unlines(ls) + y == y);
        lemma_split_none(y, '\n');
    } else {
        let l = ls.last();
        assert(!l.contains('\n')) by {
            assert(ls[ls.len() - 1] == l);
        }
        lemma_split_unlines(ls.drop_last(), l);
        assert(unlines(ls) + y == (unlines(ls.drop_last()) + l).push('\n') + y);
        lemma_split_back(unlines(ls.drop_last()) + l, '\n', y);
        assert(ls.drop_last().push(l) == ls);
    }
}

/// Reading back the lines of text made of lines without breaks.
pub proof fn lemma_lines_unlines(ls: Seq<Seq<char>>)
    requires
        forall|i: int| 0 <= i < ls.len() ==> !(#[trigger] ls[i]).contains('\n'),
    ensures
        lines_spec(unlines(ls)) == ls,
{
    lemma_split_unlines(ls, Seq::<char>::empty());
    assert(unlines(ls) + Seq::<char>::empty() == unlines(ls));
    assert(ls.push(Seq::<char>::empty()).drop_last() == ls);
}

pub proof fn lemma_trim_solid(s: Seq<char>)
    requires
        s.len() > 0,
        !is_ws(s[0]),
        !is_ws(s.last()),
    ensures
        trim_spec(s) == s,
{
}

pub proof fn lemma_trim_space_after(s: Seq<char>)
    requires
        s.len() > 0,
        !is_ws(s[0]),
        !is_ws(s.last()),
    ensures
        trim_spec(s.push(' ')) == s,
{
    let x = s.push(' ');
    assert(trim_start_spec(x) == x);
    assert(x.drop_last() == s);
    assert(trim_end_spec(x) == trim_end_spec(s));
}

pub proof fn lemma_trim_space_before(s: Seq<char>)
    requires
        s.len() > 0,
        !is_ws(s[0]),
        !is_ws(s.last()),
    ensures
        trim_spec(seq![' '] + s) == s,
{
    let x = seq![' '] + s;
    assert(x.drop_first() == s);
    assert(trim_start_spec(x) == trim_start_spec(s));
}

/// The timing line written for `a` and `b` reads back as `(a, b)`.
pub proof fn lemma_time_line_round_trip(a: i64, b: i64)
    requires
        a >= 0,
        b >= 0,
    ensures
        trim_spec(time_line_text(a, b)) == time_line_text(a, b),
        !all_digits(time_line_text(a, b)),
        contains_spec(time_line_text(a, b), arrow()),
        time_line_spec(SubtitleFormat::Srt, time_line_text(a, b)) == Some((a, b)),
        !time_line_text(a, b).contains('\n'),
{
    let x = srt_ts_text(a as nat);
    let y = srt_ts_text(b as nat);
    lemma_ts_chars(a as nat);
    lemma_ts_chars(b as nat);
    let mid = seq![' ', '-', '-', '>', ' '];
    let s = time_line_text(a, b);
    let n = x.len() as int;
    assert(s == x + mid + y);
    assert(s[0] == x[0]);
    assert(s.last() == y.last());
    lemma_trim_solid(s);
    assert(s[n] == ' ');
    assert(!all_digits(s));
    let i = n + 1;
    assert(s.subrange(i, i + 3) == arrow());
    assert(occurs_at(s, arrow(), i));
    assert forall|j: int| occurs_at(s, arrow(), j) implies j == i by {
        assert(s.subrange(j, j + 3)[0] == s[j]);
        assert(s.subrange(j, j + 3)[2] == s[j + 2]);
        assert(s[j] == '-');
        assert(s[j + 2] == '>');
        if j < n {
            assert(s[j] == x[j]);
            assert(ts_char(x[j]));
        } else if j > n + 2 {
            assert(s[j] == y[j - n - 5]);
            assert(ts_char(y[j - n - 5]));
        } else if j == n {
        } else if j == n + 2 {
            assert(s[j] == '-');
        }
    }
    assert(sole_arrow_at(s, i));
    assert(s.subrange(0, i) == x.push(' '));
    assert(s.subrange(i + 3, s.len() as int) == seq![' '] + y);
    lemma_trim_space_after(x);
    lemma_trim_space_before(y);
    lemma_srt_ts_round_trip(a as nat);
    lemma_srt_ts_round_trip(b as nat);
    assert(timestamp_spec(SubtitleFormat::Srt, x) == Some(a));
    assert(timestamp_spec(SubtitleFormat::Srt, y) == Some(b));
    assert(contains_spec(s, arrow()));
    assert(!s.contains('\n')) by {
        if s.contains('\n') {
            let k = choose|k: int| 0 <= k < s.len() && s[k] == '\n';
            if k < n {
                assert(s[k] == x[k]);
                assert(ts_char(x[k]));
            } else if k >= n + 5 {
                assert(s[k] == y[k - n - 5]);
                assert(ts_char(y[k - n - 5]));
            }
        }
    }
}

/// The fold from a given state.
pub open spec fn fold_from(st: BlockState, ls: Seq<Seq<char>>) -> BlockState
    decreases ls.len(),
{
    if ls.len() == 0 {
        st
    } else {
        block_step(SubtitleFormat::Srt, fold_from(st, ls.drop_last()), ls.last())
    }
}

pub proof fn lemma_fold_from_init(ls: Seq<Seq<char>>)
    ensures
        block_fold(SubtitleFormat::Srt, ls) == fold_from(block_init(), ls),
    decreases ls.len(),
{
    if ls.len() > 0 {
        lemma_fold_from_init(ls.drop_last());
    }
}

pub proof fn lemma_fold_concat(st: BlockState, a: Seq<Seq<char>>, b: Seq<Seq<char>>)
    ensures
        fold_from(st, a + b) == fold_from(fold_from(st, a), b),
    decreases b.len(),
{
    if b.len() == 0 {
        assert(a + b == a);
    } else {
        assert((a + b).drop_last() == a + b.drop_last());
        assert((a + b).last() == b.last());
        lemma_fold_concat(st, a, b.drop_last());
    }
}

/// Text lines accumulate into the pending cue's text.
pub proof fn lemma_fold_text(st: BlockState, a: i64, b: i64, ts: Seq<Seq<char>>, j: int)
    requires
        st.cur == Some((a, b, Seq::<char>::empty())),
        0 <= j <= ts.len(),
        forall|i: int|
            0 <= i < ts.len() ==> {
                let l = #[trigger] ts[i];
                &&& l.len() > 0
                &&& trim_spec(l) == l
                &&& !all_digits(l)
                &&& !contains_spec(l, arrow())
            },
    ensures
        fold_from(st, ts.subrange(0, j)) == (BlockState {
            cur: Some((a, b, if j == 0 { Seq::<char>::empty() } else { join_spec(ts.subrange(0, j), '\n') })),
            out: st.out,
        }),
    decreases j,
{
    if j > 0 {
        lemma_fold_text(st, a, b, ts, j - 1);
        let pre = ts.subrange(0, j - 1);
        let post = ts.subrange(0, j);
        assert(post.drop_last() == pre);
        assert(post.last() == ts[j - 1]);
        let l = ts[j - 1];
        if j == 1 {
            assert(join_spec(post, '\n') == post[0]);
        } else {
            assert(join_spec(post, '\n') == join_spec(pre, '\n').push('\n') + l);
            assert(join_spec(pre, '\n').len() > 0) by {
                lemma_join_nonempty(pre);
            }
        }
    }
}

pub proof fn lemma_join_nonempty(ps: Seq<Seq<char>>)
    requires
        ps.len() > 0,
        ps[0].len() > 0,
    ensures
        join_spec(ps, '\n').len() > 0,
    decreases ps.len(),
{
    if ps.len() > 1 {
        assert(ps.drop_last()[0] == ps[0]);
        lemma_join_nonempty(ps.drop_last());
    }
}

pub proof fn lemma_step_index(st: BlockState, k: nat)
    ensures
        block_step(SubtitleFormat::Srt, st, dec_pad(k + 1, 1)) == st,
{
    let idx = dec_pad(k + 1, 1);
    lemma_dec_pad(k + 1, 1);
    lemma_trim_solid(idx);
}

pub proof fn lemma_step_time(st: BlockState, a: i64, b: i64)
    requires
        a >= 0,
        b >= 0,
    ensures
        block_step(SubtitleFormat::Srt, st, time_line_text(a, b)) == (BlockState {
            cur: Some((a, b, Seq::<char>::empty())),
            out: st.out,
        }),
{
    lemma_time_line_round_trip(a, b);
}

pub proof fn lemma_fold_two(st: BlockState, x: Seq<char>, y: Seq<char>)
    ensures
        fold_from(st, seq![x, y]) == block_step(
            SubtitleFormat::Srt,
            block_step(SubtitleFormat::Srt, st, x),
            y,
        ),
{
    assert(seq![x, y].drop_last() == seq![x]);
    assert(seq![x].drop_last() == Seq::<Seq<char>>::empty());
    assert(fold_from(st, Seq::<Seq<char>>::empty()) == st);
    assert(seq![x].last() == x);
    assert(fold_from(st, seq![x]) == block_step(SubtitleFormat::Srt, st, x));
    assert(seq![x, y].last() == y);
}

pub proof fn lemma_fold_one(st: BlockState, x: Seq<char>)
    ensures
        fold_from(st, seq![x]) == block_step(SubtitleFormat::Srt, st, x),
{
    assert(seq![x].drop_last() == Seq::<Seq<char>>::empty());
    assert(fold_from(st, Seq::<Seq<char>>::empty()) == st);
    assert(seq![x].last() == x);
}

/// One written block turns the reader's idle state into the same state with
/// the cue added.
pub proof fn lemma_block_round_trip(out: Seq<CueModel>, k: nat, c: CueModel)
    requires
        srt_safe(c),
        trim_spec(c.text) == c.text,
        c.text.len() > 0,
    ensures
        fold_from(BlockState { cur: None, out }, block_lines(k, c)) == (BlockState {
            cur: None,
            out: out.push(cue_of(c.pts, c.end_pts, c.text)),
        }),
{
    let st0 = BlockState { cur: None, out };
    let idx = dec_pad(k + 1, 1);
    let tl = time_line_text(c.pts, c.end_pts);
    let ts = split_spec(c.text, '\n');
    let head = seq![idx, tl];
    let blank = seq![Seq::<char>::empty()];
    assert(block_lines(k, c) == head + ts + blank);
    lemma_fold_two(st0, idx, tl);
    lemma_step_index(st0, k);
    lemma_step_time(st0, c.pts, c.end_pts);
    let st1 = BlockState { cur: Some((c.pts, c.end_pts, Seq::<char>::empty())), out };
    assert(fold_from(st0, head) == st1);
    lemma_fold_concat(st0, head, ts);
    lemma_fold_text(st1, c.pts, c.end_pts, ts, ts.len() as int);
    assert(ts.subrange(0, ts.len() as int) == ts);
    crate::text::lemma_split_nonempty(c.text, '\n');
    lemma_join_split(c.text, '\n');
    let st2 = BlockState { cur: Some((c.pts, c.end_pts, c.text)), out };
    assert(fold_from(st0, head + ts) == st2);
    lemma_fold_concat(st0, head + ts, blank);
    lemma_fold_one(st2, Seq::<char>::empty());
}

pub open spec fn all_safe(cues: Seq<CueModel>) -> bool {
    forall|i: int|
        0 <= i < cues.len() ==> srt_safe(#[trigger] cues[i]) && trim_spec(cues[i].text)
            == cues[i].text && cues[i].text.len() > 0
}

/// Cues as SRT gives them back: same times and text, lasting from start to
/// end.
pub open spec fn as_read_back(cues: Seq<CueModel>) -> Seq<CueModel> {
    cues.map_values(|c: CueModel| cue_of(c.pts, c.end_pts, c.text))
}

pub proof fn lemma_blocks_fold(cues: Seq<CueModel>)
    requires
        all_safe(cues),
    ensures
        fold_from(block_init(), all_block_lines(cues)) == (BlockState {
            cur: None,
            out: as_read_back(cues),
        }),
        forall|i: int|
            0 <= i < all_block_lines(cues).len() ==> !(#[trigger] all_block_lines(cues)[i]).contains(
                '\n',
            ),
    decreases cues.len(),
{
    if cues.len() == 0 {
        assert(as_read_back(cues) == Seq::<CueModel>::empty());
    } else {
        let p = cues.drop_last();
        let c = cues.last();
        assert(all_safe(p)) by {
            assert forall|i: int| 0 <= i < p.len() implies srt_safe(#[trigger] p[i])
                && trim_spec(p[i].text) == p[i].text && p[i].text.len() > 0 by {
                assert(p[i] == cues[i]);
            }
        }
        assert(cues[cues.len() - 1] == c);
        lemma_blocks_fold(p);
        let k = (cues.len() - 1) as nat;
        lemma_fold_concat(block_init(), all_block_lines(p), block_lines(k, c));
        lemma_block_round_trip(as_read_back(p), k, c);
        assert(p.push(c) == cues);
        assert(as_read_back(p).push(cue_of(c.pts, c.end_pts, c.text)) == as_read_back(cues));
        let bl = block_lines(k, c);
        let ts = split_spec(c.text, '\n');
        lemma_split_pieces(c.text, '\n');
        lemma_dec_pad(k + 1, 1);
        lemma_time_line_round_trip(c.pts, c.end_pts);
        assert forall|i: int| 0 <= i < bl.len() implies !(#[trigger] bl[i]).contains('\n') by {
            if i == 0 {
                let d = dec_pad(k + 1, 1);
                if d.contains('\n') {
                    let j = choose|j: int| 0 <= j < d.len() && d[j] == '\n';
                    assert(is_digit(d[j]));
                }
            } else if i == 1 {
            } else if i < 2 + ts.len() {
                assert(bl[i] == ts[i - 2]);
            } else {
                assert(bl[i] == Seq::<char>::empty());
            }
        }
        let all = all_block_lines(cues);
        let ap = all_block_lines(p);
        assert(all == ap + bl);
        assert forall|i: int| 0 <= i < all.len() implies !(#[trigger] all[i]).contains('\n') by {
            if i < ap.len() {
                assert(all[i] == ap[i]);
            } else {
                assert(all[i] == bl[i - ap.len()]);
            }
        }
    }
}

/// Writing cues as SRT and parsing the text gives back the same cues, for
/// cues that SRT can carry (see `srt_safe`) with trimmed, non-empty text:
/// the same number, each with the same start, end and text, and a duration
/// of end minus start (so exactly the same cues when that already held).
pub proof fn lemma_srt_round_trip(cues: Seq<CueModel>)
    requires
        all_safe(cues),
    ensures
        srt_cues_spec(srt_text_spec(cues)) == as_read_back(cues),
        srt_cues_spec(srt_text_spec(cues)).len() == cues.len(),
        forall|i: int|
            0 <= i < cues.len() ==> {
                let r = #[trigger] srt_cues_spec(srt_text_spec(cues))[i];
                &&& r.pts == cues[i].pts
                &&& r.end_pts == cues[i].end_pts
                &&& r.text == cues[i].text
                &&& r.duration == r.end_pts - r.pts
            },
        (forall|i: int| 0 <= i < cues.len() ==> #[trigger] cues[i].duration == cues[i].end_pts
            - cues[i].pts) ==> srt_cues_spec(srt_text_spec(cues)) == cues,
{
    lemma_blocks_fold(cues);
    lemma_lines_unlines(all_block_lines(cues));
    lemma_fold_from_init(all_block_lines(cues));
    if forall|i: int| 0 <= i < cues.len() ==> #[trigger] cues[i].duration == cues[i].end_pts
        - cues[i].pts {
        assert forall|i: int| 0 <= i < cues.len() implies #[trigger] as_read_back(cues)[i]
            == cues[i] by {
            let c = cues[i];
            assert(c.duration == c.end_pts - c.pts);
            assert(as_read_back(cues)[i] == cue_of(c.pts, c.end_pts, c.text));
            assert(cue_of(c.pts, c.end_pts, c.text).duration == c.duration);
        }
        assert(as_read_back(cues) =~= cues);
    }
}

pub proof fn lemma_unlines_block(k: nat, c: CueModel)
    ensures
        unlines(block_lines(k, c)) == dec_pad(k + 1, 1).push('\n') + time_line_text(
            c.pts,
            c.end_pts,
        ).push('\n') + c.text.push('\n') + seq!['\n'],
{
    let head = seq![dec_pad(k + 1, 1), time_line_text(c.pts, c.end_pts)];
    let ts = split_spec(c.text, '\n');
    let blank = seq![Seq::<char>::empty()];
    assert(block_lines(k, c) == head + ts + blank);
    lemma_unlines_concat(head + ts, blank);
    lemma_unlines_concat(head, ts);
    lemma_unlines_split(c.text);
    assert(head.drop_last() == seq![dec_pad(k + 1, 1)]);
    assert(seq![dec_pad(k + 1, 1)].drop_last() == Seq::<Seq<char>>::empty());
    assert(unlines(Seq::<Seq<char>>::empty()) == Seq::<char>::empty());
    assert(unlines(seq![dec_pad(k + 1, 1)]) == dec_pad(k + 1, 1).push('\n'));
    assert(blank.drop_last() == Seq::<Seq<char>>::empty());
    assert(unlines(blank) == seq!['\n']);
}

fn digit_char_exec(d: u64) -> (r: char)
    requires
        d < 10,
    ensures
        r == digit_char(d as int),
{
    if d == 0 {
        '0'
    } else if d == 1 {
        '1'
    } else if d == 2 {
        '2'
    } else if d == 3 {
        '3'
    } else if d == 4 {
        '4'
    } else if d == 5 {
        '5'
    } else if d == 6 {
        '6'
    } else if d == 7 {
        '7'
    } else if d == 8 {
        '8'
    } else {
        '9'
    }
}

fn push_dec_pad(out: &mut Vec<char>, n: u64, w: u64)
    ensures
        final(out)@ == old(out)@ + dec_pad(n as nat, w as nat),
    decreases n + w,
{
    if n < 10 && w <= 1 {
        out.push(digit_char_exec(n));
    } else {
        let w2: u64 = if w > 0 {
            w - 1
        } else {
            0
        };
        push_dec_pad(out, n / 10, w2);
        out.push(digit_char_exec(n % 10));
        assert(dec_pad(n as nat, w as nat) == dec_pad((n / 10) as nat, w2 as nat) + seq![
            digit_char((n % 10) as int),
        ]);
    }
}

fn push_ts(out: &mut Vec<char>, t: i64)
    ensures
        final(out)@ == old(out)@ + srt_ts_text(ts_value(t)),
{
    let v: u64 = if t < 0 {
        0
    } else {
        t as u64
    };
    let ghost before = out@;
    push_dec_pad(out, v / 3600000, 2);
    out.push(':');
    push_dec_pad(out, (v / 60000) % 60, 2);
    out.push(':');
    push_dec_pad(out, (v / 1000) % 60, 2);
    out.push(',');
    push_dec_pad(out, v % 1000, 3);
    assert(out@ == before + srt_ts_text(v as nat));
}

fn push_block(out: &mut Vec<char>, k: u64, c: &SubtitleFrame)
    requires
        k < u64::MAX,
    ensures
        final(out)@ == old(out)@ + unlines(block_lines(k as nat, c@)),
{
    let ghost before = out@;
    push_dec_pad(out, k + 1, 1);
    out.push('\n');
    push_ts(out, c.pts);
    out.push(' ');
    out.push('-');
    out.push('-');
    out.push('>');
    out.push(' ');
    push_ts(out, c.end_pts);
    out.push('\n');
    crate::text::push_all(out, &crate::text::str_to_chars(c.text.as_str()));
    out.push('\n');
    out.push('\n');
    proof {
        lemma_unlines_block(k as nat, c@);
    }
    assert(out@ == before + unlines(block_lines(k as nat, c@)));
}

/// Writes cues as SRT text: for each cue its number (from 1), its timing
/// line, its text and a blank line. A negative time is written as 0.
pub fn to_srt(cues: &Vec<SubtitleFrame>) -> (r: String)
    ensures
        r@ == srt_text_spec(cue_views(cues@)),
{
    let mut out: Vec<char> = Vec::new();
    let mut i: usize = 0;
    assert(cue_views(cues@.subrange(0, 0)) == Seq::<CueModel>::empty());
    while i < cues.len()
        invariant
            i <= cues@.len(),
            out@ == unlines(all_block_lines(cue_views(cues@.subrange(0, i as int)))),
        decreases cues.len() - i,
    {
        let c = &cues[i];
        let ghost pre = cue_views(cues@.subrange(0, i as int));
        let ghost post = cue_views(cues@.subrange(0, i + 1));
        assert(post.drop_last() == pre);
        assert(post.last() == c@);
        assert(post.len() == i + 1);
        let ghost before = out@;
        push_block(&mut out, i as u64, c);
        proof {
            lemma_unlines_concat(all_block_lines(pre), block_lines(i as nat, c@));
        }
        assert(out@ == before + unlines(block_lines(i as nat, c@)));
        i = i + 1;
    }
    assert(cues@.subrange(0, cues@.len() as int) == cues@);
    chars_to_string(&out)
}

} // verus!

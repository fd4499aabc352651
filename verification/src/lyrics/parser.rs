//! Lyrics parsing: QRC (per-word timing) and LRC (per-line timestamps) texts
//! become a timeline of lines sorted by start time.
//!
//! The grammars are those of the patterns
//! `^\[(\d+),(\d+)\](.*)$` (a QRC line, after trimming),
//! `(.*?)\((\d+),(\d+)\)` (a QRC word) and
//! `\[(\d{1,3}):(\d{1,2})(?:[\.:](\d{1,3}))?\]` (an LRC timestamp),
//! matched leftmost-first and without overlap, written out as scans.

use vstd::prelude::*;
use vstd::string::*;
use crate::text::{
    all_ascii_digits, append_chars, copy_range, decimal_value, digit_run_end, digit_run_end_at,
    chars_of, is_ascii_digit, line_views, lines, parse_i64, parse_i64_range, parse_u64,
    parse_u64_range, split_lines, string_of, trim, trim_chars,
};
use crate::models::{
    track_view, LyricsDocument, LyricsDocumentView, LyricsLine, LyricsLineView, LyricsTrack,
    LyricsWord, LyricsWordView,
};

verus! {

pub open spec fn opt_seq<A>(o: Option<A>) -> Seq<A> {
    match o {
        Some(a) => seq![a],
        None => Seq::empty(),
    }
}

// ---------------------------------------------------------------------------
// QRC
// ---------------------------------------------------------------------------

/// `[start,duration]` at the head of a trimmed QRC line: the ends of the two
/// digit runs, i.e. the positions of `,` and of `]`.
pub open spec fn qrc_header(t: Seq<char>) -> Option<(int, int)> {
    if t.len() > 0 && t[0] == '[' {
        let a = digit_run_end(t, 1);
        if a > 1 && a < t.len() && t[a] == ',' {
            let b = digit_run_end(t, a + 1);
            if b > a + 1 && b < t.len() && t[b] == ']' {
                Some((a, b))
            } else {
                None
            }
        } else {
            None
        }
    } else {
        None
    }
}

/// `(start,duration)` at `p`: the positions of `,` and of `)`.
pub open spec fn word_tail(c: Seq<char>, p: int) -> Option<(int, int)> {
    if 0 <= p < c.len() && c[p] == '(' {
        let q = digit_run_end(c, p + 1);
        if q > p + 1 && q < c.len() && c[q] == ',' {
            let r = digit_run_end(c, q + 1);
            if r > q + 1 && r < c.len() && c[r] == ')' {
                Some((q, r))
            } else {
                None
            }
        } else {
            None
        }
    } else {
        None
    }
}

/// The word that the text `c[start..p]` and the tail `(c[p+1..q],c[q+1..r])`
/// make: kept when the text is not empty and both numbers parse.
pub open spec fn qrc_word(c: Seq<char>, start: int, p: int, q: int, r: int) -> Option<
    LyricsWordView,
> {
    let text = c.subrange(start, p);
    match (parse_u64(c.subrange(p + 1, q)), parse_u64(c.subrange(q + 1, r))) {
        (Some(s), Some(d)) => if text.len() > 0 {
            Some(LyricsWordView { text, start_ms: s, end_ms: s.saturating_add(d) })
        } else {
            None
        },
        _ => None,
    }
}

/// The words of a QRC line's content: each match of `(.*?)\((\d+),(\d+)\)`,
/// searched from `start`, the lazy text ending at the first tail at or after `p`.
pub open spec fn qrc_words_scan(c: Seq<char>, start: int, p: int) -> Seq<LyricsWordView>
    decreases c.len() - p,
{
    if p >= c.len() {
        Seq::empty()
    } else {
        match word_tail(c, p) {
            Some((q, r)) => opt_seq(qrc_word(c, start, p, q, r)) + qrc_words_scan(c, r + 1, r + 1),
            None => qrc_words_scan(c, start, p + 1),
        }
    }
}

pub open spec fn concat_texts(ws: Seq<LyricsWordView>) -> Seq<char>
    decreases ws.len(),
{
    if ws.len() == 0 {
        Seq::empty()
    } else {
        concat_texts(ws.drop_last()) + ws.last().text
    }
}

/// One QRC line: the trimmed line must open with `[start,duration]`; its words
/// give the text, or the trimmed rest when there are none; a line without text
/// is dropped.
pub open spec fn qrc_line(line: Seq<char>) -> Option<LyricsLineView> {
    let t = trim(line);
    match qrc_header(t) {
        Some((a, b)) => match (parse_u64(t.subrange(1, a)), parse_u64(t.subrange(a + 1, b))) {
            (Some(st), Some(du)) => {
                let content = t.subrange(b + 1, t.len() as int);
                let words = qrc_words_scan(content, 0, 0);
                let text = if words.len() == 0 {
                    trim(content)
                } else {
                    concat_texts(words)
                };
                if text.len() > 0 {
                    Some(
                        LyricsLineView {
                            text,
                            start_ms: st,
                            end_ms: Some(st.saturating_add(du)),
                            words: if words.len() == 0 {
                                None
                            } else {
                                Some(words)
                            },
                        },
                    )
                } else {
                    None
                }
            },
            _ => None,
        },
        None => None,
    }
}

pub open spec fn qrc_lines(ls: Seq<Seq<char>>) -> Seq<LyricsLineView>
    decreases ls.len(),
{
    if ls.len() == 0 {
        Seq::empty()
    } else {
        qrc_lines(ls.drop_last()) + opt_seq(qrc_line(ls.last()))
    }
}

// ---------------------------------------------------------------------------
// LRC
// ---------------------------------------------------------------------------

/// The positions inside a timestamp tag that starts with `[`: the end of the
/// minutes (the `:`), the end of the seconds, the end of the fraction when
/// there is one (the `]`), and the index just past the tag.
pub struct LrcTag {
    pub m: int,
    pub se: int,
    pub fe: Option<int>,
    pub end: int,
}

/// `\[(\d{1,3}):(\d{1,2})(?:[\.:](\d{1,3}))?\]` at `p`.
pub open spec fn lrc_tag(s: Seq<char>, p: int) -> Option<LrcTag> {
    if 0 <= p < s.len() && s[p] == '[' {
        let m = digit_run_end(s, p + 1);
        if 1 <= m - (p + 1) <= 3 && m < s.len() && s[m] == ':' {
            let se = digit_run_end(s, m + 1);
            if 1 <= se - (m + 1) <= 2 && se < s.len() {
                if s[se] == ']' {
                    Some(LrcTag { m, se, fe: None, end: se + 1 })
                } else if s[se] == '.' || s[se] == ':' {
                    let fe = digit_run_end(s, se + 1);
                    if 1 <= fe - (se + 1) <= 3 && fe < s.len() && s[fe] == ']' {
                        Some(LrcTag { m, se, fe: Some(fe), end: fe + 1 })
                    } else {
                        None
                    }
                } else {
                    None
                }
            } else {
                None
            }
        } else {
            None
        }
    } else {
        None
    }
}

/// A fraction of a second as milliseconds: one digit are tenths, two are
/// hundredths, three are milliseconds.
pub open spec fn fraction_ms(f: Seq<char>) -> Option<u64> {
    match parse_u64(f) {
        Some(v) => if f.len() == 1 {
            Some((v * 100) as u64)
        } else if f.len() == 2 {
            Some((v * 10) as u64)
        } else {
            Some(v)
        },
        None => None,
    }
}

/// The time a tag stands for, `None` when one of its digits is not ASCII.
pub open spec fn lrc_tag_ms(s: Seq<char>, p: int, t: LrcTag) -> Option<u64> {
    let minutes = parse_u64(s.subrange(p + 1, t.m));
    let seconds = parse_u64(s.subrange(t.m + 1, t.se));
    let millis = match t.fe {
        Some(fe) => fraction_ms(s.subrange(t.se + 1, fe)),
        None => Some(0u64),
    };
    match (minutes, seconds, millis) {
        (Some(mi), Some(se), Some(ms)) => Some(((mi * 60 + se) * 1000 + ms) as u64),
        _ => None,
    }
}

/// The times of the tags of a line, in the order they appear.
pub open spec fn lrc_scan_times(s: Seq<char>, p: int) -> Seq<u64>
    decreases s.len() - p,
{
    if p >= s.len() {
        Seq::empty()
    } else {
        match lrc_tag(s, p) {
            Some(t) => opt_seq(lrc_tag_ms(s, p, t)) + lrc_scan_times(s, t.end),
            None => lrc_scan_times(s, p + 1),
        }
    }
}

/// The line with every tag removed.
pub open spec fn lrc_scan_text(s: Seq<char>, p: int) -> Seq<char>
    decreases s.len() - p,
{
    if p >= s.len() {
        Seq::empty()
    } else {
        match lrc_tag(s, p) {
            Some(t) => lrc_scan_text(s, t.end),
            None => seq![s[p]] + lrc_scan_text(s, p + 1),
        }
    }
}

/// `(time, text)` for each time of a line that has times and, once its tags are
/// removed and it is trimmed, text.
pub open spec fn lrc_line_entries(line: Seq<char>) -> Seq<(u64, Seq<char>)> {
    let times = lrc_scan_times(line, 0);
    let text = trim(lrc_scan_text(line, 0));
    if times.len() == 0 || text.len() == 0 {
        Seq::empty()
    } else {
        times.map_values(|t: u64| (t, text))
    }
}

pub open spec fn lrc_entries(ls: Seq<Seq<char>>) -> Seq<(u64, Seq<char>)>
    decreases ls.len(),
{
    if ls.len() == 0 {
        Seq::empty()
    } else {
        lrc_entries(ls.drop_last()) + lrc_line_entries(ls.last())
    }
}

/// First index at or after `j` whose key is not below `key`.
pub open spec fn lower_bound(g: Seq<(u64, Seq<char>)>, key: u64, j: int) -> int
    decreases g.len() - j,
{
    if 0 <= j < g.len() && g[j].0 < key {
        lower_bound(g, key, j + 1)
    } else {
        j
    }
}

/// Files an entry under its time unless the time is already there: the first
/// text seen for a time wins.
pub open spec fn insert_first(g: Seq<(u64, Seq<char>)>, e: (u64, Seq<char>)) -> Seq<
    (u64, Seq<char>),
> {
    let j = lower_bound(g, e.0, 0);
    if j < g.len() && g[j].0 == e.0 {
        g
    } else {
        g.insert(j, e)
    }
}

pub open spec fn group_entries(es: Seq<(u64, Seq<char>)>) -> Seq<(u64, Seq<char>)>
    decreases es.len(),
{
    if es.len() == 0 {
        Seq::empty()
    } else {
        insert_first(group_entries(es.drop_last()), es.last())
    }
}

pub open spec fn entry_line(e: (u64, Seq<char>)) -> LyricsLineView {
    LyricsLineView { text: e.1, start_ms: e.0, end_ms: None, words: None }
}

/// The LRC reading of a text: one line per distinct time, in time order.
pub open spec fn lrc_lines(ls: Seq<Seq<char>>) -> Seq<LyricsLineView> {
    group_entries(lrc_entries(ls)).map_values(|e: (u64, Seq<char>)| entry_line(e))
}

// ---------------------------------------------------------------------------
// Ordering and end times
// ---------------------------------------------------------------------------

/// First index at or after `j` whose line starts after `key`.
pub open spec fn upper_bound(s: Seq<LyricsLineView>, key: u64, j: int) -> int
    decreases s.len() - j,
{
    if 0 <= j < s.len() && s[j].start_ms <= key {
        upper_bound(s, key, j + 1)
    } else {
        j
    }
}

/// Stable sort by start time (insertion sort).
pub open spec fn sort_lines(s: Seq<LyricsLineView>) -> Seq<LyricsLineView>
    decreases s.len(),
{
    if s.len() == 0 {
        s
    } else {
        let r = sort_lines(s.drop_last());
        r.insert(upper_bound(r, s.last().start_ms, 0), s.last())
    }
}

/// A line without an end time ends where the next one starts.
pub open spec fn fill_end(s: Seq<LyricsLineView>, i: int) -> LyricsLineView {
    if i + 1 < s.len() && s[i].end_ms is None {
        LyricsLineView {
            text: s[i].text,
            start_ms: s[i].start_ms,
            end_ms: Some(s[i + 1].start_ms),
            words: s[i].words,
        }
    } else {
        s[i]
    }
}

pub open spec fn fill_end_times(s: Seq<LyricsLineView>) -> Seq<LyricsLineView> {
    Seq::new(s.len(), |i: int| fill_end(s, i))
}

pub open spec fn finish(s: Seq<LyricsLineView>) -> Seq<LyricsLineView> {
    fill_end_times(sort_lines(s))
}

/// The timeline of a text: its QRC lines when it has any, its LRC lines otherwise.
pub open spec fn parsed_track(raw: Seq<char>) -> Seq<LyricsLineView> {
    let q = qrc_lines(lines(raw));
    if q.len() > 0 {
        finish(q)
    } else {
        finish(lrc_lines(lines(raw)))
    }
}

// ---------------------------------------------------------------------------
// QRC, executable
// ---------------------------------------------------------------------------

fn word_tail_at(c: &Vec<char>, p: usize) -> (r: Option<(usize, usize)>)
    requires
        p < c.len(),
    ensures
        r is Some <==> word_tail(c@, p as int) is Some,
        r matches Some((q, e)) ==> word_tail(c@, p as int) == Some((q as int, e as int)),
{
    if c[p] != '(' {
        return None;
    }
    let q = digit_run_end_at(c, p + 1);
    if !(q > p + 1 && q < c.len() && c[q] == ',') {
        return None;
    }
    let e = digit_run_end_at(c, q + 1);
    if !(e > q + 1 && e < c.len() && c[e] == ')') {
        return None;
    }
    Some((q, e))
}

fn make_qrc_word(c: &Vec<char>, start: usize, p: usize, q: usize, e: usize) -> (r: Option<
    (LyricsWord, Vec<char>),
>)
    requires
        start <= p,
        p + 1 < q,
        q + 1 < e,
        e < c.len(),
    ensures
        r is Some <==> qrc_word(c@, start as int, p as int, q as int, e as int) is Some,
        r matches Some((w, chars)) ==> qrc_word(c@, start as int, p as int, q as int, e as int)
            == Some(w.deep_view()) && chars@ == w.text@,
{
    let s = parse_u64_range(c, p + 1, q);
    let d = parse_u64_range(c, q + 1, e);
    match (s, d) {
        (Some(s), Some(d)) => {
            if p > start {
                let chars = copy_range(c, start, p);
                let w = LyricsWord { text: string_of(&chars), start_ms: s, end_ms: s.saturating_add(d) };
                Some((w, chars))
            } else {
                None
            }
        },
        _ => None,
    }
}

proof fn lemma_concat_texts_push(ws: Seq<LyricsWordView>, w: LyricsWordView)
    ensures
        concat_texts(ws.push(w)) == concat_texts(ws) + w.text,
{
    assert(ws.push(w).drop_last() =~= ws);
}

/// The words of a QRC line's content and their texts run together.
fn parse_qrc_words(c: &Vec<char>) -> (r: (Vec<LyricsWord>, Vec<char>))
    ensures
        r.0.deep_view() == qrc_words_scan(c@, 0, 0),
        r.1@ == concat_texts(r.0.deep_view()),
{
    let mut words: Vec<LyricsWord> = Vec::new();
    let mut text: Vec<char> = Vec::new();
    let mut start: usize = 0;
    let mut p: usize = 0;
    assert(words.deep_view() =~= Seq::<LyricsWordView>::empty());
    while p < c.len()
        invariant
            start <= p <= c.len(),
            words.deep_view() + qrc_words_scan(c@, start as int, p as int) == qrc_words_scan(
                c@,
                0,
                0,
            ),
            text@ == concat_texts(words.deep_view()),
        decreases c.len() - p,
    {
        match word_tail_at(c, p) {
            Some((q, e)) => {
                let ghost before = words.deep_view();
                let ghost rest = qrc_words_scan(c@, e + 1, e + 1);
                let ghost found = opt_seq(qrc_word(c@, start as int, p as int, q as int, e as int));
                assert(qrc_words_scan(c@, start as int, p as int) == found + rest);
                match make_qrc_word(c, start, p, q, e) {
                    Some((w, chars)) => {
                        append_chars(&mut text, &chars);
                        words.push(w);
                        proof {
                            assert(words.deep_view() =~= before.push(w.deep_view()));
                            lemma_concat_texts_push(before, w.deep_view());
                            assert(before + (found + rest) =~= words.deep_view() + rest);
                        }
                    },
                    None => {
                        assert(found =~= Seq::<LyricsWordView>::empty());
                        assert(before + (found + rest) =~= before + rest);
                    },
                }
                start = e + 1;
                p = e + 1;
            },
            None => {
                p = p + 1;
            },
        }
    }
    assert(qrc_words_scan(c@, start as int, p as int) =~= Seq::<LyricsWordView>::empty());
    assert(words.deep_view() + Seq::<LyricsWordView>::empty() =~= words.deep_view());
    (words, text)
}

fn parse_qrc_line(line: &Vec<char>) -> (r: Option<LyricsLine>)
    ensures
        r.deep_view() == qrc_line(line@),
{
    let t = trim_chars(line);
    if t.len() == 0 || t[0] != '[' {
        return None;
    }
    let a = digit_run_end_at(&t, 1);
    if !(a > 1 && a < t.len() && t[a] == ',') {
        return None;
    }
    let b = digit_run_end_at(&t, a + 1);
    if !(b > a + 1 && b < t.len() && t[b] == ']') {
        return None;
    }
    assert(qrc_header(t@) == Some((a as int, b as int)));
    let st = match parse_u64_range(&t, 1, a) {
        Some(v) => v,
        None => return None,
    };
    let du = match parse_u64_range(&t, a + 1, b) {
        Some(v) => v,
        None => return None,
    };
    let content = copy_range(&t, b + 1, t.len());
    let (words, joined) = parse_qrc_words(&content);
    let text = if words.len() == 0 {
        trim_chars(&content)
    } else {
        joined
    };
    if text.len() == 0 {
        return None;
    }
    let words = if words.len() == 0 {
        None
    } else {
        Some(words)
    };
    Some(LyricsLine { text: string_of(&text), start_ms: st, end_ms: Some(st.saturating_add(du)), words })
}

fn parse_qrc(ls: &Vec<Vec<char>>) -> (r: Vec<LyricsLine>)
    ensures
        r.deep_view() == qrc_lines(line_views(ls@)),
{
    let ghost lv = line_views(ls@);
    let mut out: Vec<LyricsLine> = Vec::new();
    let mut i: usize = 0;
    assert(lv.take(0) =~= Seq::<Seq<char>>::empty());
    assert(out.deep_view() =~= Seq::<LyricsLineView>::empty());
    while i < ls.len()
        invariant
            i <= ls.len(),
            lv == line_views(ls@),
            out.deep_view() == qrc_lines(lv.take(i as int)),
        decreases ls.len() - i,
    {
        let found = parse_qrc_line(&ls[i]);
        let ghost before = out.deep_view();
        assert(lv.take(i + 1).drop_last() =~= lv.take(i as int));
        assert(lv.take(i + 1).last() == ls[i as int]@);
        match found {
            Some(line) => {
                out.push(line);
                assert(out.deep_view() =~= before + opt_seq(qrc_line(ls[i as int]@)));
            },
            None => {
                assert(before + opt_seq(qrc_line(ls[i as int]@)) =~= before);
            },
        }
        i = i + 1;
    }
    assert(lv.take(ls.len() as int) =~= lv);
    out
}

// ---------------------------------------------------------------------------
// LRC, executable
// ---------------------------------------------------------------------------

struct TagPos {
    m: usize,
    se: usize,
    fe: Option<usize>,
    end: usize,
}

spec fn tag_view(t: TagPos) -> LrcTag {
    LrcTag {
        m: t.m as int,
        se: t.se as int,
        fe: match t.fe {
            Some(f) => Some(f as int),
            None => None,
        },
        end: t.end as int,
    }
}

fn lrc_tag_at(s: &Vec<char>, p: usize) -> (r: Option<TagPos>)
    requires
        p < s.len(),
    ensures
        r is Some <==> lrc_tag(s@, p as int) is Some,
        r matches Some(t) ==> lrc_tag(s@, p as int) == Some(tag_view(t)),
{
    if s[p] != '[' {
        return None;
    }
    let m = digit_run_end_at(s, p + 1);
    if !(1 <= m - (p + 1) && m - (p + 1) <= 3 && m < s.len() && s[m] == ':') {
        return None;
    }
    let se = digit_run_end_at(s, m + 1);
    if !(1 <= se - (m + 1) && se - (m + 1) <= 2 && se < s.len()) {
        return None;
    }
    if s[se] == ']' {
        return Some(TagPos { m, se, fe: None, end: se + 1 });
    }
    if !(s[se] == '.' || s[se] == ':') {
        return None;
    }
    let fe = digit_run_end_at(s, se + 1);
    if 1 <= fe - (se + 1) && fe - (se + 1) <= 3 && fe < s.len() && s[fe] == ']' {
        Some(TagPos { m, se, fe: Some(fe), end: fe + 1 })
    } else {
        None
    }
}

pub open spec fn pow10(n: nat) -> nat
    decreases n,
{
    if n == 0 {
        1
    } else {
        pow10((n - 1) as nat) * 10
    }
}

proof fn lemma_decimal_value_below_pow10(d: Seq<char>)
    requires
        all_ascii_digits(d),
    ensures
        decimal_value(d) < pow10(d.len()),
    decreases d.len(),
{
    if d.len() > 0 {
        let k = (d.len() - 1) as nat;
        assert(all_ascii_digits(d.drop_last())) by {
            assert forall|i: int| 0 <= i < d.drop_last().len() implies is_ascii_digit(
                #[trigger] d.drop_last()[i],
            ) by {
                assert(d.drop_last()[i] == d[i]);
            }
        }
        lemma_decimal_value_below_pow10(d.drop_last());
        assert(is_ascii_digit(d[d.len() - 1]));
        assert(d.drop_last().len() == k);
        assert(pow10(d.len()) == pow10(k) * 10);
    }
}

proof fn lemma_parse_u64_small(d: Seq<char>, n: nat)
    requires
        parse_u64(d) is Some,
        d.len() <= n,
        n <= 3,
    ensures
        parse_u64(d).unwrap() < pow10(n),
{
    lemma_decimal_value_below_pow10(d);
    reveal_with_fuel(pow10, 4);
    assert(pow10(d.len()) <= pow10(n));
}

fn lrc_tag_ms_at(s: &Vec<char>, p: usize, t: &TagPos) -> (r: Option<u64>)
    requires
        p < s.len(),
        lrc_tag(s@, p as int) == Some(tag_view(*t)),
    ensures
        r == lrc_tag_ms(s@, p as int, tag_view(*t)),
{
    let minutes = parse_u64_range(s, p + 1, t.m);
    let seconds = parse_u64_range(s, t.m + 1, t.se);
    let millis = match t.fe {
        Some(fe) => {
            let f = parse_u64_range(s, t.se + 1, fe);
            match f {
                Some(v) => {
                    proof {
                        lemma_parse_u64_small(s@.subrange(t.se + 1, fe as int), 3);
                        reveal_with_fuel(pow10, 4);
                    }
                    if fe - (t.se + 1) == 1 {
                        Some(v * 100)
                    } else if fe - (t.se + 1) == 2 {
                        Some(v * 10)
                    } else {
                        Some(v)
                    }
                },
                None => None,
            }
        },
        None => Some(0u64),
    };
    match (minutes, seconds, millis) {
        (Some(mi), Some(se), Some(ms)) => {
            proof {
                lemma_parse_u64_small(s@.subrange(p + 1, t.m as int), 3);
                lemma_parse_u64_small(s@.subrange(t.m + 1, t.se as int), 2);
                reveal_with_fuel(pow10, 4);
            }
            Some((mi * 60 + se) * 1000 + ms)
        },
        _ => None,
    }
}

/// The times of the tags of a line and the line without them.
fn lrc_scan(s: &Vec<char>) -> (r: (Vec<u64>, Vec<char>))
    ensures
        r.0@ == lrc_scan_times(s@, 0),
        r.1@ == lrc_scan_text(s@, 0),
{
    let mut times: Vec<u64> = Vec::new();
    let mut text: Vec<char> = Vec::new();
    let mut p: usize = 0;
    while p < s.len()
        invariant
            p <= s.len(),
            times@ + lrc_scan_times(s@, p as int) == lrc_scan_times(s@, 0),
            text@ + lrc_scan_text(s@, p as int) == lrc_scan_text(s@, 0),
        decreases s.len() - p,
    {
        let ghost t0 = times@;
        let ghost x0 = text@;
        match lrc_tag_at(s, p) {
            Some(t) => {
                let ms = lrc_tag_ms_at(s, p, &t);
                let ghost rest = lrc_scan_times(s@, t.end as int);
                assert(lrc_scan_times(s@, p as int) == opt_seq(ms) + rest);
                assert(lrc_scan_text(s@, p as int) == lrc_scan_text(s@, t.end as int));
                match ms {
                    Some(v) => {
                        times.push(v);
                        assert(t0 + (opt_seq(ms) + rest) =~= times@ + rest);
                    },
                    None => {
                        assert(t0 + (opt_seq(ms) + rest) =~= times@ + rest);
                    },
                }
                p = t.end;
            },
            None => {
                let ghost rest = lrc_scan_text(s@, p + 1);
                assert(lrc_scan_text(s@, p as int) == seq![s@[p as int]] + rest);
                assert(lrc_scan_times(s@, p as int) == lrc_scan_times(s@, p + 1));
                text.push(s[p]);
                assert(x0 + (seq![s@[p as int]] + rest) =~= text@ + rest);
                p = p + 1;
            },
        }
    }
    assert(times@ + Seq::<u64>::empty() =~= times@);
    assert(text@ + Seq::<char>::empty() =~= text@);
    (times, text)
}

spec fn group_view(keys: Seq<u64>, texts: Seq<Vec<char>>) -> Seq<(u64, Seq<char>)> {
    Seq::new(keys.len(), |i: int| (keys[i], texts[i]@))
}

fn insert_first_at(keys: &mut Vec<u64>, texts: &mut Vec<Vec<char>>, key: u64, text: Vec<char>)
    requires
        old(keys).len() == old(texts).len(),
    ensures
        final(keys).len() == final(texts).len(),
        group_view(final(keys)@, final(texts)@) == insert_first(
            group_view(old(keys)@, old(texts)@),
            (key, text@),
        ),
{
    let ghost g = group_view(keys@, texts@);
    let mut j: usize = 0;
    while j < keys.len() && keys[j] < key
        invariant
            j <= keys.len(),
            keys.len() == texts.len(),
            g == group_view(keys@, texts@),
            lower_bound(g, key, 0) == lower_bound(g, key, j as int),
        decreases keys.len() - j,
    {
        j = j + 1;
    }
    if j < keys.len() && keys[j] == key {
        return;
    }
    keys.insert(j, key);
    texts.insert(j, text);
    assert(group_view(keys@, texts@) =~= g.insert(j as int, (key, text@)));
}

proof fn lemma_group_push(es: Seq<(u64, Seq<char>)>, e: (u64, Seq<char>))
    ensures
        group_entries(es.push(e)) == insert_first(group_entries(es), e),
{
    assert(es.push(e).drop_last() =~= es);
}

/// The LRC lines of a text given as lines.
fn parse_lrc(ls: &Vec<Vec<char>>) -> (r: Vec<LyricsLine>)
    ensures
        r.deep_view() == lrc_lines(line_views(ls@)),
{
    let ghost lv = line_views(ls@);
    let mut keys: Vec<u64> = Vec::new();
    let mut texts: Vec<Vec<char>> = Vec::new();
    let mut i: usize = 0;
    assert(lv.take(0) =~= Seq::<Seq<char>>::empty());
    assert(group_view(keys@, texts@) =~= Seq::<(u64, Seq<char>)>::empty());
    while i < ls.len()
        invariant
            i <= ls.len(),
            lv == line_views(ls@),
            keys.len() == texts.len(),
            group_view(keys@, texts@) == group_entries(lrc_entries(lv.take(i as int))),
        decreases ls.len() - i,
    {
        let ghost prefix = lrc_entries(lv.take(i as int));
        let ghost line = ls[i as int]@;
        assert(lv.take(i + 1).drop_last() =~= lv.take(i as int));
        assert(lv.take(i + 1).last() == line);
        assert(lrc_entries(lv.take(i + 1)) == prefix + lrc_line_entries(line));
        let (times, rest) = lrc_scan(&ls[i]);
        let text = trim_chars(&rest);
        if times.len() == 0 || text.len() == 0 {
            assert(prefix + lrc_line_entries(line) =~= prefix);
        } else {
            let ghost es = lrc_line_entries(line);
            assert(es == times@.map_values(|t: u64| (t, text@)));
            let mut k: usize = 0;
            assert(prefix + es.take(0) =~= prefix);
            while k < times.len()
                invariant
                    k <= times.len(),
                    keys.len() == texts.len(),
                    es == times@.map_values(|t: u64| (t, text@)),
                    group_view(keys@, texts@) == group_entries(prefix + es.take(k as int)),
                decreases times.len() - k,
            {
                let copy = copy_range(&text, 0, text.len());
                assert(text@.subrange(0, text@.len() as int) =~= text@);
                insert_first_at(&mut keys, &mut texts, times[k], copy);
                proof {
                    assert(prefix + es.take(k + 1) =~= (prefix + es.take(k as int)).push(es[k as int]));
                    lemma_group_push(prefix + es.take(k as int), es[k as int]);
                }
                k = k + 1;
            }
            assert(es.take(times.len() as int) =~= es);
        }
        i = i + 1;
    }
    assert(lv.take(ls.len() as int) =~= lv);
    let ghost g = group_view(keys@, texts@);
    let mut out: Vec<LyricsLine> = Vec::new();
    let mut k: usize = 0;
    while k < keys.len()
        invariant
            k <= keys.len(),
            keys.len() == texts.len(),
            g == group_view(keys@, texts@),
            out.deep_view() == g.take(k as int).map_values(|e: (u64, Seq<char>)| entry_line(e)),
        decreases keys.len() - k,
    {
        let line = LyricsLine { text: string_of(&texts[k]), start_ms: keys[k], end_ms: None, words: None };
        let ghost before = out.deep_view();
        assert(g[k as int] == (keys@[k as int], texts@[k as int]@));
        assert(line.deep_view() == entry_line(g[k as int]));
        out.push(line);
        assert(out.deep_view() =~= before.push(line.deep_view()));
        assert(g.take(k + 1).map_values(|e: (u64, Seq<char>)| entry_line(e)) =~= g.take(
            k as int,
        ).map_values(|e: (u64, Seq<char>)| entry_line(e)).push(entry_line(g[k as int])));
        k = k + 1;
    }
    assert(g.take(keys.len() as int) =~= g);
    out
}

// ---------------------------------------------------------------------------
// Ordering and end times, executable
// ---------------------------------------------------------------------------

proof fn lemma_remove_first_view(
    seq0: Seq<LyricsLine>,
    now: Seq<LyricsLine>,
    whole: Seq<LyricsLineView>,
    k: int,
)
    requires
        seq0.len() > 0,
        now == seq0.remove(0),
        0 <= k <= whole.len(),
        Seq::new(seq0.len(), |j: int| seq0[j].deep_view()) == whole.skip(k),
    ensures
        k < whole.len(),
        seq0[0].deep_view() == whole[k],
        Seq::new(now.len(), |j: int| now[j].deep_view()) == whole.skip(k + 1),
{
    let v0 = Seq::new(seq0.len(), |j: int| seq0[j].deep_view());
    assert(v0.len() == seq0.len());
    assert(v0[0] == seq0[0].deep_view());
    assert forall|i: int| 0 <= i < now.len() implies #[trigger] now[i].deep_view() == whole.skip(
        k + 1,
    )[i] by {
        assert(now[i] == seq0[i + 1]);
        assert(v0[i + 1] == seq0[i + 1].deep_view());
        assert(whole.skip(k)[i + 1] == whole[k + 1 + i]);
    }
    assert(Seq::new(now.len(), |j: int| now[j].deep_view()) =~= whole.skip(k + 1));
}

fn sort_by_start(lines: Vec<LyricsLine>) -> (r: Vec<LyricsLine>)
    ensures
        r.deep_view() == sort_lines(lines.deep_view()),
{
    let ghost orig = lines.deep_view();
    let mut rest = lines;
    let mut out: Vec<LyricsLine> = Vec::new();
    let ghost mut k: int = 0;
    assert(orig.take(0) =~= Seq::<LyricsLineView>::empty());
    assert(out.deep_view() =~= Seq::<LyricsLineView>::empty());
    assert(orig.skip(0) =~= orig);
    while rest.len() > 0
        invariant
            0 <= k <= orig.len(),
            rest.deep_view() == orig.skip(k),
            out.deep_view() == sort_lines(orig.take(k)),
        decreases rest.len(),
    {
        let ghost before = out.deep_view();
        let ghost rest0 = rest.deep_view();
        let ghost seq0 = rest@;
        let x = rest.remove(0);
        proof {
            lemma_remove_first_view(seq0, rest@, orig, k);
        }
        let key = x.start_ms;
        let mut j: usize = 0;
        while j < out.len() && out[j].start_ms <= key
            invariant
                j <= out.len(),
                out.deep_view() == before,
                upper_bound(before, key, 0) == upper_bound(before, key, j as int),
            decreases out.len() - j,
        {
            j = j + 1;
        }
        out.insert(j, x);
        proof {
            assert(orig.take(k + 1).drop_last() =~= orig.take(k));
            assert(orig.take(k + 1).last() == x.deep_view());
            assert(out.deep_view() =~= before.insert(j as int, x.deep_view()));
            k = k + 1;
        }
    }
    assert(orig.take(k) =~= orig);
    out
}

fn fill_ends(lines: Vec<LyricsLine>) -> (r: Vec<LyricsLine>)
    ensures
        r.deep_view() == fill_end_times(lines.deep_view()),
{
    let ghost s = lines.deep_view();
    let mut rest = lines;
    let mut out: Vec<LyricsLine> = Vec::new();
    let ghost mut k: int = 0;
    assert(s.skip(0) =~= s);
    assert(out.deep_view() =~= fill_end_times(s).take(0));
    while rest.len() > 0
        invariant
            0 <= k <= s.len(),
            rest.deep_view() == s.skip(k),
            out.deep_view() == fill_end_times(s).take(k),
        decreases rest.len(),
    {
        let ghost rest0 = rest.deep_view();
        let ghost seq0 = rest@;
        let mut line = rest.remove(0);
        proof {
            lemma_remove_first_view(seq0, rest@, s, k);
        }
        assert(rest.deep_view() == s.skip(k + 1));
        assert(rest.deep_view().len() == rest.len());
        assert(rest.len() == s.len() - (k + 1));
        assert(line.deep_view() == s[k]);
        if line.end_ms.is_none() && rest.len() > 0 {
            assert(rest.deep_view()[0] == rest@[0].deep_view());
            assert(s.skip(k + 1)[0] == s[k + 1]);
            line.end_ms = Some(rest[0].start_ms);
        }
        assert(line.deep_view() == fill_end(s, k));
        let ghost before = out.deep_view();
        out.push(line);
        proof {
            assert(out.deep_view() =~= before.push(line.deep_view()));
            assert(fill_end_times(s).take(k + 1) =~= fill_end_times(s).take(k).push(fill_end(s, k)));
            assert(out.deep_view() =~= fill_end_times(s).take(k + 1));
            k = k + 1;
        }
    }
    assert(fill_end_times(s).take(k) =~= fill_end_times(s));
    out
}

fn finish_lines(lines: Vec<LyricsLine>) -> (r: Vec<LyricsLine>)
    ensures
        r.deep_view() == finish(lines.deep_view()),
{
    fill_ends(sort_by_start(lines))
}

fn parse_track(raw: &Vec<char>) -> (r: LyricsTrack)
    ensures
        r.lines.deep_view() == parsed_track(raw@),
{
    let ls = split_lines(raw);
    let q = parse_qrc(&ls);
    if q.len() > 0 {
        LyricsTrack { lines: finish_lines(q) }
    } else {
        LyricsTrack { lines: finish_lines(parse_lrc(&ls)) }
    }
}

// ---------------------------------------------------------------------------
// Offset and document
// ---------------------------------------------------------------------------

/// The text opens with `[offset:`.
pub open spec fn has_offset_prefix(t: Seq<char>) -> bool {
    &&& t.len() >= 8
    &&& t[0] == '['
    &&& t[1] == 'o'
    &&& t[2] == 'f'
    &&& t[3] == 'f'
    &&& t[4] == 's'
    &&& t[5] == 'e'
    &&& t[6] == 't'
    &&& t[7] == ':'
}

/// `[offset:N]` on a line of its own, trimmed: the value when it parses as `i64`.
pub open spec fn line_offset(line: Seq<char>) -> Option<i64> {
    let t = trim(line);
    if t.len() >= 9 && has_offset_prefix(t) && t.last() == ']' {
        parse_i64(t.subrange(8, t.len() - 1))
    } else {
        None
    }
}

pub open spec fn first_offset(ls: Seq<Seq<char>>, i: int) -> i64
    decreases ls.len() - i,
{
    if i < 0 || i >= ls.len() {
        0
    } else {
        match line_offset(ls[i]) {
            Some(v) => v,
            None => first_offset(ls, i + 1),
        }
    }
}

/// The offset the first parseable `[offset:N]` line gives, zero without one.
pub open spec fn embedded_offset_of(raw: Seq<char>) -> i64 {
    first_offset(lines(raw), 0)
}

fn line_offset_of(line: &Vec<char>) -> (r: Option<i64>)
    ensures
        r == line_offset(line@),
{
    let t = trim_chars(line);
    let n = t.len();
    if n < 9 || t[n - 1] != ']' {
        return None;
    }
    if !(t[0] == '[' && t[1] == 'o' && t[2] == 'f' && t[3] == 'f' && t[4] == 's' && t[5] == 'e'
        && t[6] == 't' && t[7] == ':') {
        return None;
    }
    parse_i64_range(&t, 8, n - 1)
}

fn embedded_offset(ls: &Vec<Vec<char>>) -> (r: i64)
    ensures
        r == first_offset(line_views(ls@), 0),
{
    let ghost lv = line_views(ls@);
    let mut i: usize = 0;
    while i < ls.len()
        invariant
            i <= ls.len(),
            lv == line_views(ls@),
            first_offset(lv, 0) == first_offset(lv, i as int),
        decreases ls.len() - i,
    {
        match line_offset_of(&ls[i]) {
            Some(v) => {
                return v;
            },
            None => {},
        }
        i = i + 1;
    }
    0
}

/// A track read from optional text, kept when it has at least one line.
pub open spec fn optional_track(raw: Option<&str>) -> Option<Seq<LyricsLineView>> {
    match raw {
        Some(text) => if parsed_track(text@).len() > 0 {
            Some(parsed_track(text@))
        } else {
            None
        },
        None => None,
    }
}

fn parse_optional_track(raw: Option<&str>) -> (r: Option<LyricsTrack>)
    ensures
        track_view(r) == optional_track(raw),
{
    match raw {
        Some(text) => {
            let chars = chars_of(text);
            let track = parse_track(&chars);
            if track.lines.len() > 0 {
                Some(track)
            } else {
                None
            }
        },
        None => None,
    }
}

pub open spec fn no_timeline_message() -> Seq<char> {
    "歌词内容中没有可用的时间轴"@
}

/// The document a lyrics text and its optional translation and romanization
/// make.
pub open spec fn document_of(
    track_key: &str,
    source: &str,
    original: &str,
    translation: Option<&str>,
    romanization: Option<&str>,
) -> LyricsDocumentView {
    LyricsDocumentView {
        track_key: track_key@,
        source: source@,
        offset_ms: embedded_offset_of(original@),
        original: parsed_track(original@),
        translation: optional_track(translation),
        romanization: optional_track(romanization),
    }
}

/// Reads lyrics into a document. Fails exactly when the original text yields
/// no timed line; translation and romanization are kept only when they yield
/// lines of their own.
pub fn parse_document(
    track_key: &str,
    source: &str,
    original: &str,
    translation: Option<&str>,
    romanization: Option<&str>,
) -> (r: Result<LyricsDocument, String>)
    ensures
        parsed_track(original@).len() == 0 <==> r is Err,
        r matches Err(e) ==> e@ == no_timeline_message(),
        r matches Ok(d) ==> d.deep_view() == document_of(
            track_key,
            source,
            original,
            translation,
            romanization,
        ),
{
    let raw = chars_of(original);
    let ls = split_lines(&raw);
    let original_track = parse_track(&raw);
    if original_track.lines.len() == 0 {
        return Err(String::from_str("歌词内容中没有可用的时间轴"));
    }
    let offset_ms = embedded_offset(&ls);
    Ok(
        LyricsDocument {
            track_key: String::from_str(track_key),
            source: String::from_str(source),
            offset_ms,
            original: original_track,
            translation: parse_optional_track(translation),
            romanization: parse_optional_track(romanization),
        },
    )
}

} // verus!

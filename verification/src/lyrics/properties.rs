//! What every parsed timeline satisfies.

use vstd::prelude::*;
use crate::lyrics::parser::{
    document_of, entry_line, first_offset, line_offset, opt_seq, fill_end, fill_end_times, finish, group_entries, insert_first,
    lower_bound, lrc_entries, lrc_line_entries, lrc_lines, optional_track, parsed_track, qrc_line,
    qrc_lines, sort_lines, upper_bound,
};
use crate::models::LyricsLineView;
use crate::text::{decimal_string, lemma_decimal_string_reads_back, lines};

verus! {

broadcast use vstd::seq_lib::group_to_multiset_ensures;

/// Lines in order of start time.
pub open spec fn sorted_by_start(s: Seq<LyricsLineView>) -> bool {
    forall|i: int, j: int| 0 <= i <= j < s.len() ==> s[i].start_ms <= s[j].start_ms
}

proof fn lemma_upper_bound(r: Seq<LyricsLineView>, key: u64, j: int)
    requires
        0 <= j <= r.len(),
        sorted_by_start(r),
        forall|i: int| 0 <= i < j ==> r[i].start_ms <= key,
    ensures
        j <= upper_bound(r, key, j) <= r.len(),
        forall|i: int| 0 <= i < upper_bound(r, key, j) ==> r[i].start_ms <= key,
        forall|i: int| upper_bound(r, key, j) <= i < r.len() ==> r[i].start_ms > key,
    decreases r.len() - j,
{
    if j < r.len() && r[j].start_ms <= key {
        lemma_upper_bound(r, key, j + 1);
    }
}

proof fn lemma_insert_sorted(r: Seq<LyricsLineView>, x: LyricsLineView)
    requires
        sorted_by_start(r),
    ensures
        sorted_by_start(r.insert(upper_bound(r, x.start_ms, 0), x)),
{
    lemma_upper_bound(r, x.start_ms, 0);
    let j = upper_bound(r, x.start_ms, 0);
    let s = r.insert(j, x);
    assert forall|a: int, b: int| 0 <= a <= b < s.len() implies s[a].start_ms <= s[b].start_ms by {
        if a < j && b < j {
        } else if a < j && b == j {
        } else if a < j {
            assert(s[b] == r[b - 1]);
        } else if a == j && b == j {
        } else if a == j {
            assert(s[b] == r[b - 1]);
        } else {
            assert(s[a] == r[a - 1]);
            assert(s[b] == r[b - 1]);
        }
    }
}

/// Sorting puts the lines in order of start time.
pub proof fn lemma_sort_lines_sorted(s: Seq<LyricsLineView>)
    ensures
        sorted_by_start(sort_lines(s)),
    decreases s.len(),
{
    if s.len() > 0 {
        lemma_sort_lines_sorted(s.drop_last());
        lemma_insert_sorted(sort_lines(s.drop_last()), s.last());
    }
}

proof fn lemma_insert_multiset(r: Seq<LyricsLineView>, j: int, x: LyricsLineView)
    requires
        0 <= j <= r.len(),
    ensures
        r.insert(j, x).to_multiset() =~= r.to_multiset().insert(x),
{
    let y = r.insert(j, x);
    assert(y.remove(j) =~= r);
    assert(y[j] == x);
    assert(y.contains(x));
}

/// Sorting keeps every line, as often as it occurs.
pub proof fn lemma_sort_lines_permutes(s: Seq<LyricsLineView>)
    ensures
        sort_lines(s).to_multiset() =~= s.to_multiset(),
    decreases s.len(),
{
    if s.len() > 0 {
        let r = sort_lines(s.drop_last());
        lemma_sort_lines_permutes(s.drop_last());
        lemma_upper_bound_in_range(r, s.last().start_ms);
        lemma_insert_multiset(r, upper_bound(r, s.last().start_ms, 0), s.last());
        assert(s.drop_last().push(s.last()) =~= s);
    }
}

proof fn lemma_upper_bound_in_range(r: Seq<LyricsLineView>, key: u64)
    ensures
        0 <= upper_bound(r, key, 0) <= r.len(),
{
    lemma_upper_bound_any(r, key, 0);
}

proof fn lemma_upper_bound_any(r: Seq<LyricsLineView>, key: u64, j: int)
    requires
        0 <= j <= r.len(),
    ensures
        j <= upper_bound(r, key, j) <= r.len(),
    decreases r.len() - j,
{
    if j < r.len() && r[j].start_ms <= key {
        lemma_upper_bound_any(r, key, j + 1);
    }
}

/// Filling in end times keeps the lines, their order and start times; every
/// line but the last ends, and a line that had no end ends where the next one
/// starts.
pub proof fn lemma_fill_end_times(s: Seq<LyricsLineView>)
    ensures
        fill_end_times(s).len() == s.len(),
        forall|i: int|
            0 <= i < s.len() ==> (#[trigger] fill_end_times(s)[i]).start_ms == s[i].start_ms
                && fill_end_times(s)[i].text == s[i].text && fill_end_times(s)[i].words
                == s[i].words,
        forall|i: int|
            0 <= i < s.len() - 1 ==> (#[trigger] fill_end_times(s)[i]).end_ms is Some,
        forall|i: int|
            0 <= i < s.len() - 1 && s[i].end_ms is None ==> (#[trigger] fill_end_times(
                s,
            )[i]).end_ms == Some(s[i + 1].start_ms),
        forall|i: int|
            0 <= i < s.len() && s[i].end_ms is Some ==> (#[trigger] fill_end_times(s)[i]).end_ms
                == s[i].end_ms,
{
    assert forall|i: int| 0 <= i < s.len() implies #[trigger] fill_end_times(s)[i] == fill_end(
        s,
        i,
    ) by {}
}

/// A finished timeline: the lines in order of start time, each of the input's
/// lines present once per occurrence (end times aside), and every line but
/// the last with an end time.
pub proof fn lemma_finish(s: Seq<LyricsLineView>)
    ensures
        sorted_by_start(finish(s)),
        finish(s).len() == s.len(),
        sort_lines(s).to_multiset() =~= s.to_multiset(),
        forall|i: int| 0 <= i < finish(s).len() - 1 ==> (#[trigger] finish(s)[i]).end_ms is Some,
{
    lemma_sort_lines_sorted(s);
    lemma_sort_lines_permutes(s);
    let r = sort_lines(s);
    lemma_fill_end_times(r);
    assert(r.len() == r.to_multiset().len());
    assert(s.len() == s.to_multiset().len());
    assert forall|i: int, j: int| 0 <= i <= j < finish(s).len() implies finish(s)[i].start_ms
        <= finish(s)[j].start_ms by {
        assert(fill_end_times(r)[i].start_ms == r[i].start_ms);
        assert(fill_end_times(r)[j].start_ms == r[j].start_ms);
    }
}

// ---------------------------------------------------------------------------
// LRC grouping
// ---------------------------------------------------------------------------

pub open spec fn strictly_sorted_keys(g: Seq<(u64, Seq<char>)>) -> bool {
    forall|i: int, j: int| 0 <= i < j < g.len() ==> g[i].0 < g[j].0
}

/// The text of the first entry with time `t`.
pub open spec fn first_text(es: Seq<(u64, Seq<char>)>, t: u64) -> Option<Seq<char>>
    decreases es.len(),
{
    if es.len() == 0 {
        None
    } else {
        match first_text(es.drop_last(), t) {
            Some(x) => Some(x),
            None => if es.last().0 == t {
                Some(es.last().1)
            } else {
                None
            },
        }
    }
}

proof fn lemma_lower_bound(g: Seq<(u64, Seq<char>)>, key: u64, j: int)
    requires
        0 <= j <= g.len(),
        strictly_sorted_keys(g),
        forall|i: int| 0 <= i < j ==> g[i].0 < key,
    ensures
        j <= lower_bound(g, key, j) <= g.len(),
        forall|i: int| 0 <= i < lower_bound(g, key, j) ==> g[i].0 < key,
        forall|i: int| lower_bound(g, key, j) <= i < g.len() ==> g[i].0 >= key,
    decreases g.len() - j,
{
    if j < g.len() && g[j].0 < key {
        lemma_lower_bound(g, key, j + 1);
    }
}

/// The group the lines of an LRC text fall into, by time: keys strictly
/// increasing, each key once, with the text of the first entry for it, and
/// every time of an entry present.
pub open spec fn groups_entries(g: Seq<(u64, Seq<char>)>, es: Seq<(u64, Seq<char>)>) -> bool {
    &&& strictly_sorted_keys(g)
    &&& forall|i: int| 0 <= i < g.len() ==> first_text(es, #[trigger] g[i].0) == Some(g[i].1)
    &&& forall|t: u64| #[trigger] first_text(es, t) is Some ==> exists|i: int| 0 <= i < g.len() && g[i].0 == t
}

/// Grouping keeps, for each time, the text seen first, in time order.
pub proof fn lemma_group_entries(es: Seq<(u64, Seq<char>)>)
    ensures
        groups_entries(group_entries(es), es),
    decreases es.len(),
{
    if es.len() > 0 {
        let prev = es.drop_last();
        let e = es.last();
        let g = group_entries(prev);
        lemma_group_entries(prev);
        lemma_lower_bound(g, e.0, 0);
        let j = lower_bound(g, e.0, 0);
        assert forall|t: u64| t != e.0 implies #[trigger] first_text(es, t) == first_text(prev, t) by {}
        if j < g.len() && g[j].0 == e.0 {
            assert(first_text(prev, e.0) == Some(g[j].1));
            assert(first_text(es, e.0) == first_text(prev, e.0));
            assert(group_entries(es) == g);
            assert forall|i: int| 0 <= i < g.len() implies first_text(es, #[trigger] g[i].0) == Some(g[i].1) by {
                assert(first_text(prev, g[i].0) == Some(g[i].1));
            }
            assert forall|t: u64| #[trigger] first_text(es, t) is Some implies exists|i: int| 0 <= i < g.len() && g[i].0 == t by {
                if t == e.0 {
                    assert(g[j].0 == t);
                } else {
                    assert(first_text(prev, t) is Some);
                }
            }
        } else {
            assert(first_text(prev, e.0) is None) by {
                if first_text(prev, e.0) is Some {
                    let i = choose|i: int| 0 <= i < g.len() && g[i].0 == e.0;
                    assert(i >= j);
                    if i > j {
                        assert(g[j].0 < g[i].0);
                    }
                }
            }
            assert(first_text(es, e.0) == Some(e.1));
            let h = g.insert(j, e);
            assert(group_entries(es) == h);
            assert forall|a: int, b: int| 0 <= a < b < h.len() implies h[a].0 < h[b].0 by {
                if b < j {
                } else if a < j && b == j {
                } else if a < j {
                    assert(h[b] == g[b - 1]);
                } else if a == j {
                    assert(h[b] == g[b - 1]);
                } else {
                    assert(h[a] == g[a - 1]);
                    assert(h[b] == g[b - 1]);
                }
            }
            assert forall|i: int| 0 <= i < h.len() implies first_text(es, #[trigger] h[i].0) == Some(h[i].1) by {
                if i < j {
                    assert(h[i] == g[i]);
                    assert(first_text(prev, g[i].0) == Some(g[i].1));
                } else if i > j {
                    assert(h[i] == g[i - 1]);
                    assert(first_text(prev, g[i - 1].0) == Some(g[i - 1].1));
                }
            }
            assert forall|t: u64| #[trigger] first_text(es, t) is Some implies exists|i: int| 0 <= i < h.len() && h[i].0 == t by {
                if t == e.0 {
                    assert(h[j] == e);
                } else {
                    assert(first_text(prev, t) is Some);
                    let i = choose|i: int| 0 <= i < g.len() && g[i].0 == t;
                    if i < j {
                        assert(h[i] == g[i]);
                    } else {
                        assert(h[i + 1] == g[i]);
                    }
                }
            }
        }
    }
}

/// An LRC text gives one line per distinct time, in strictly increasing time
/// order, each with the text of the first line that carries that time, and a
/// line for every time any text line carries.
pub proof fn lemma_lrc_lines(ls: Seq<Seq<char>>)
    ensures
        forall|i: int, j: int|
            0 <= i < j < lrc_lines(ls).len() ==> lrc_lines(ls)[i].start_ms < lrc_lines(ls)[j].start_ms,
        forall|i: int|
            0 <= i < lrc_lines(ls).len() ==> first_text(lrc_entries(ls), #[trigger] lrc_lines(ls)[i].start_ms)
                == Some(lrc_lines(ls)[i].text) && lrc_lines(ls)[i].end_ms is None,
        forall|t: u64|
            #[trigger] first_text(lrc_entries(ls), t) is Some ==> exists|i: int|
                0 <= i < lrc_lines(ls).len() && lrc_lines(ls)[i].start_ms == t,
{
    let es = lrc_entries(ls);
    let g = group_entries(es);
    lemma_group_entries(es);
    assert forall|i: int| 0 <= i < g.len() implies #[trigger] lrc_lines(ls)[i] == entry_line(g[i]) by {}
    assert forall|t: u64| #[trigger] first_text(es, t) is Some implies exists|i: int|
        0 <= i < lrc_lines(ls).len() && lrc_lines(ls)[i].start_ms == t by {
        let i = choose|i: int| 0 <= i < g.len() && g[i].0 == t;
        assert(lrc_lines(ls)[i] == entry_line(g[i]));
    }
}

// ---------------------------------------------------------------------------
// QRC lines
// ---------------------------------------------------------------------------

/// A QRC line runs from its start for its duration (saturating), has text,
/// and when it has words they are not empty.
pub proof fn lemma_qrc_line(line: Seq<char>)
    ensures
        qrc_line(line) matches Some(l) ==> l.end_ms is Some && l.end_ms.unwrap() >= l.start_ms
            && l.text.len() > 0 && (l.words matches Some(ws) ==> ws.len() > 0),
{
}

// ---------------------------------------------------------------------------
// When parsing fails, and what every line satisfies
// ---------------------------------------------------------------------------

/// A line with text that does not end before it starts.
pub open spec fn well_formed_line(l: LyricsLineView) -> bool {
    l.text.len() > 0 && (l.end_ms is Some ==> l.start_ms <= l.end_ms.unwrap())
}

/// A timeline: lines in order of start time, each well formed, and every line
/// but the last with an end time.
pub open spec fn is_timeline(t: Seq<LyricsLineView>) -> bool {
    &&& sorted_by_start(t)
    &&& forall|i: int| 0 <= i < t.len() ==> well_formed_line(#[trigger] t[i])
    &&& forall|i: int| 0 <= i < t.len() - 1 ==> (#[trigger] t[i]).end_ms is Some
}

proof fn lemma_qrc_lines_empty(ls: Seq<Seq<char>>)
    ensures
        qrc_lines(ls).len() == 0 <==> forall|i: int| 0 <= i < ls.len() ==> qrc_line(#[trigger] ls[i]) is None,
    decreases ls.len(),
{
    if ls.len() > 0 {
        let prev = ls.drop_last();
        lemma_qrc_lines_empty(prev);
        assert(qrc_lines(ls) == qrc_lines(prev) + opt_seq(qrc_line(ls.last())));
        if forall|i: int| 0 <= i < ls.len() ==> qrc_line(#[trigger] ls[i]) is None {
            assert forall|i: int| 0 <= i < prev.len() implies qrc_line(#[trigger] prev[i]) is None by {
                assert(prev[i] == ls[i]);
            }
            assert(qrc_line(ls[ls.len() - 1]) is None);
        }
        if qrc_lines(ls).len() == 0 {
            assert forall|i: int| 0 <= i < ls.len() implies qrc_line(#[trigger] ls[i]) is None by {
                if i < prev.len() {
                    assert(prev[i] == ls[i]);
                    assert(qrc_line(prev[i]) is None);
                }
            }
        }
    }
}

proof fn lemma_lrc_entries_empty(ls: Seq<Seq<char>>)
    ensures
        lrc_entries(ls).len() == 0 <==> forall|i: int| 0 <= i < ls.len() ==> lrc_line_entries(#[trigger] ls[i]).len() == 0,
    decreases ls.len(),
{
    if ls.len() > 0 {
        let prev = ls.drop_last();
        lemma_lrc_entries_empty(prev);
        assert(lrc_entries(ls) == lrc_entries(prev) + lrc_line_entries(ls.last()));
        if forall|i: int| 0 <= i < ls.len() ==> lrc_line_entries(#[trigger] ls[i]).len() == 0 {
            assert forall|i: int| 0 <= i < prev.len() implies lrc_line_entries(#[trigger] prev[i]).len() == 0 by {
                assert(prev[i] == ls[i]);
            }
            assert(lrc_line_entries(ls[ls.len() - 1]).len() == 0);
        }
        if lrc_entries(ls).len() == 0 {
            assert forall|i: int| 0 <= i < ls.len() implies lrc_line_entries(#[trigger] ls[i]).len() == 0 by {
                if i < prev.len() {
                    assert(prev[i] == ls[i]);
                    assert(lrc_line_entries(prev[i]).len() == 0);
                }
            }
        }
    }
}

proof fn lemma_group_entries_empty(es: Seq<(u64, Seq<char>)>)
    ensures
        group_entries(es).len() == 0 <==> es.len() == 0,
{
    if es.len() > 0 {
        let g = group_entries(es.drop_last());
        lemma_group_entries(es.drop_last());
        lemma_lower_bound(g, es.last().0, 0);
    }
}

/// Parsing finds no timeline exactly when no line of the text is a QRC line
/// with text and no line carries an LRC time together with text.
pub proof fn lemma_no_timeline(raw: Seq<char>)
    ensures
        parsed_track(raw).len() == 0 <==> forall|i: int|
            0 <= i < lines(raw).len() ==> qrc_line(#[trigger] lines(raw)[i]) is None
                && lrc_line_entries(lines(raw)[i]).len() == 0,
{
    let ls = lines(raw);
    lemma_qrc_lines_empty(ls);
    lemma_lrc_entries_empty(ls);
    lemma_group_entries_empty(lrc_entries(ls));
    lemma_finish(qrc_lines(ls));
    lemma_finish(lrc_lines(ls));
}

proof fn lemma_qrc_lines_well_formed(ls: Seq<Seq<char>>)
    ensures
        forall|k: int| 0 <= k < qrc_lines(ls).len() ==> well_formed_line(#[trigger] qrc_lines(ls)[k]),
    decreases ls.len(),
{
    if ls.len() > 0 {
        lemma_qrc_lines_well_formed(ls.drop_last());
        lemma_qrc_line(ls.last());
        let prev = qrc_lines(ls.drop_last());
        assert forall|k: int| 0 <= k < qrc_lines(ls).len() implies well_formed_line(#[trigger] qrc_lines(ls)[k]) by {
            if k < prev.len() {
                assert(qrc_lines(ls)[k] == prev[k]);
            } else {
                assert(qrc_lines(ls)[k] == qrc_line(ls.last()).unwrap());
            }
        }
    }
}

proof fn lemma_lrc_entry_texts(ls: Seq<Seq<char>>)
    ensures
        forall|k: int| 0 <= k < lrc_entries(ls).len() ==> (#[trigger] lrc_entries(ls)[k]).1.len() > 0,
    decreases ls.len(),
{
    if ls.len() > 0 {
        lemma_lrc_entry_texts(ls.drop_last());
        let prev = lrc_entries(ls.drop_last());
        let last = lrc_line_entries(ls.last());
        assert forall|k: int| 0 <= k < lrc_entries(ls).len() implies (#[trigger] lrc_entries(ls)[k]).1.len() > 0 by {
            if k < prev.len() {
                assert(lrc_entries(ls)[k] == prev[k]);
            } else {
                assert(lrc_entries(ls)[k] == last[k - prev.len()]);
            }
        }
    }
}

proof fn lemma_group_texts(es: Seq<(u64, Seq<char>)>)
    requires
        forall|k: int| 0 <= k < es.len() ==> (#[trigger] es[k]).1.len() > 0,
    ensures
        forall|k: int| 0 <= k < group_entries(es).len() ==> (#[trigger] group_entries(es)[k]).1.len() > 0,
    decreases es.len(),
{
    if es.len() > 0 {
        let prev = es.drop_last();
        assert forall|k: int| 0 <= k < prev.len() implies (#[trigger] prev[k]).1.len() > 0 by {
            assert(prev[k] == es[k]);
        }
        lemma_group_texts(prev);
        let g = group_entries(prev);
        let e = es.last();
        lemma_group_entries(prev);
        lemma_lower_bound(g, e.0, 0);
        let j = lower_bound(g, e.0, 0);
        if !(j < g.len() && g[j].0 == e.0) {
            let h = g.insert(j, e);
            assert forall|k: int| 0 <= k < h.len() implies (#[trigger] h[k]).1.len() > 0 by {
                if k < j {
                    assert(h[k] == g[k]);
                } else if k == j {
                    assert(h[k] == e);
                } else {
                    assert(h[k] == g[k - 1]);
                }
            }
        }
    }
}

proof fn lemma_lrc_lines_well_formed(ls: Seq<Seq<char>>)
    ensures
        forall|k: int| 0 <= k < lrc_lines(ls).len() ==> well_formed_line(#[trigger] lrc_lines(ls)[k]),
{
    let es = lrc_entries(ls);
    lemma_lrc_entry_texts(ls);
    lemma_group_texts(es);
    let g = group_entries(es);
    assert forall|k: int| 0 <= k < lrc_lines(ls).len() implies well_formed_line(#[trigger] lrc_lines(ls)[k]) by {
        assert(lrc_lines(ls)[k] == entry_line(g[k]));
    }
}

proof fn lemma_finish_well_formed(s: Seq<LyricsLineView>)
    requires
        forall|k: int| 0 <= k < s.len() ==> well_formed_line(#[trigger] s[k]),
    ensures
        is_timeline(finish(s)),
{
    lemma_finish(s);
    lemma_sort_lines_sorted(s);
    let r = sort_lines(s);
    lemma_fill_end_times(r);
    assert forall|i: int| 0 <= i < r.len() implies well_formed_line(#[trigger] r[i]) by {
        assert(r.contains(r[i]));
        assert(r.to_multiset().count(r[i]) > 0);
        assert(s.to_multiset().count(r[i]) > 0);
        assert(s.contains(r[i]));
        let k = choose|k: int| 0 <= k < s.len() && s[k] == r[i];
        assert(well_formed_line(s[k]));
    }
    assert(finish(s) == fill_end_times(r));
    assert forall|i: int| 0 <= i < finish(s).len() implies well_formed_line(#[trigger] finish(s)[i]) by {
        assert(i < r.len());
        assert(well_formed_line(r[i]));
        if i + 1 < r.len() && r[i].end_ms is None {
            assert(finish(s)[i].end_ms == Some(r[i + 1].start_ms));
            assert(r[i].start_ms <= r[i + 1].start_ms);
        }
    }
}

/// Every timeline the parser gives is in order of start time, each of its
/// lines has text and does not end before it starts, and every line but the
/// last has an end time.
pub proof fn lemma_parsed_track_well_formed(raw: Seq<char>)
    ensures
        is_timeline(parsed_track(raw)),
{
    let ls = lines(raw);
    let q = qrc_lines(ls);
    if q.len() > 0 {
        lemma_qrc_lines_well_formed(ls);
        lemma_finish_well_formed(q);
    } else {
        lemma_lrc_lines_well_formed(ls);
        lemma_finish_well_formed(lrc_lines(ls));
    }
}

/// A document read from lyrics: whether it can be read depends on the
/// original alone (translation and romanization never make it fail), and it
/// can be read exactly when the original has a timeline. Its original is then
/// a non-empty timeline, and a translation or romanization, when kept, is a
/// non-empty timeline too.
pub proof fn lemma_document(
    track_key: &str,
    source: &str,
    original: &str,
    translation: Option<&str>,
    romanization: Option<&str>,
)
    ensures
        document_of(track_key, source, original, translation, romanization).track_key == track_key@,
        document_of(track_key, source, original, translation, romanization).source == source@,
        is_timeline(document_of(track_key, source, original, translation, romanization).original),
        document_of(track_key, source, original, translation, romanization).original.len() > 0
            <==> exists|i: int|
            0 <= i < lines(original@).len() && !(qrc_line(#[trigger] lines(original@)[i]) is None
                && lrc_line_entries(lines(original@)[i]).len() == 0),
        document_of(track_key, source, original, translation, romanization).translation matches Some(t)
            ==> t.len() > 0 && is_timeline(t),
        document_of(track_key, source, original, translation, romanization).romanization matches Some(t)
            ==> t.len() > 0 && is_timeline(t),
{
    lemma_parsed_track_well_formed(original@);
    lemma_no_timeline(original@);
    if let Some(t) = translation {
        lemma_parsed_track_well_formed(t@);
    }
    if let Some(t) = romanization {
        lemma_parsed_track_well_formed(t@);
    }
}

// ---------------------------------------------------------------------------
// The embedded offset
// ---------------------------------------------------------------------------

/// The decimal text of an `i64`, with a leading `-` when it is negative.
pub open spec fn signed_decimal(n: i64) -> Seq<char> {
    if n < 0 {
        "-"@ + decimal_string((0 - n) as nat)
    } else {
        decimal_string(n as nat)
    }
}

proof fn lemma_offset_line(v: Seq<char>, n: i64)
    requires
        v.len() > 0,
        v[0] != ' ',
        crate::lyrics::parser::has_offset_prefix("[offset:"@ + v + "]"@),
        crate::text::parse_i64(v) == Some(n),
    ensures
        line_offset("[offset:"@ + v + "]"@) == Some(n),
{
    let t = "[offset:"@ + v + "]"@;
    reveal_strlit("[offset:");
    reveal_strlit("]");
    assert(t[0] == '[');
    assert(t[t.len() - 1] == ']');
    assert(crate::text::trim(t) =~= t);
    assert(t.subrange(8, t.len() - 1) =~= v);
}

/// A line `[offset:N]` gives the offset `N` for every `i64` value, written in
/// decimal with or without its sign (`+` for a value that is not negative);
/// and the document takes the offset of the first such line.
pub proof fn lemma_offset_lines(ls: Seq<Seq<char>>, j: int, n: i64)
    ensures
        line_offset("[offset:"@ + signed_decimal(n) + "]"@) == Some(n),
        n >= 0 ==> line_offset("[offset:+"@ + decimal_string(n as nat) + "]"@) == Some(n),
        0 <= j < ls.len() && ls[j] == "[offset:"@ + signed_decimal(n) + "]"@ && (forall|i: int|
            0 <= i < j ==> line_offset(#[trigger] ls[i]) is None) ==> first_offset(ls, 0) == n,
{
    reveal_strlit("[offset:");
    reveal_strlit("[offset:+");
    reveal_strlit("]");
    reveal_strlit("-");
    let d = decimal_string(if n < 0 {
        (0 - n) as nat
    } else {
        n as nat
    });
    lemma_decimal_string_reads_back(if n < 0 {
        (0 - n) as nat
    } else {
        n as nat
    });
    let v = signed_decimal(n);
    assert(crate::text::is_ascii_digit(d[0]));
    if n < 0 {
        assert(v[0] == '-');
        assert(v.drop_first() =~= d);
    } else {
        assert(v == d);
    }
    assert(crate::text::parse_i64(v) == Some(n));
    assert(("[offset:"@ + v + "]"@)[0] == '[');
    lemma_offset_line(v, n);
    if n >= 0 {
        let w = "+"@ + d;
        reveal_strlit("+");
        assert(w.drop_first() =~= d);
        assert(crate::text::parse_i64(w) == Some(n));
        assert("[offset:+"@ + d + "]"@ =~= "[offset:"@ + w + "]"@);
        lemma_offset_line(w, n);
    }
    if 0 <= j < ls.len() && ls[j] == "[offset:"@ + v + "]"@ && (forall|i: int|
        0 <= i < j ==> line_offset(#[trigger] ls[i]) is None) {
        lemma_first_offset_from(ls, j, n, 0);
    }
}

proof fn lemma_first_offset_from(ls: Seq<Seq<char>>, j: int, n: i64, i: int)
    requires
        0 <= i <= j < ls.len(),
        line_offset(ls[j]) == Some(n),
        forall|k: int| 0 <= k < j ==> line_offset(#[trigger] ls[k]) is None,
    ensures
        first_offset(ls, i) == n,
    decreases j - i,
{
    if i < j {
        assert(line_offset(ls[i]) is None);
        lemma_first_offset_from(ls, j, n, i + 1);
    }
}

} // verus!

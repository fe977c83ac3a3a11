//! What segmentation guarantees, whatever the manuscript.
//!
//! The chapters that are kept come in ascending order of their number. With
//! a selection whose ranges do not touch, the chapters kept are exactly the
//! chapters of the manuscript whose number lies in a range. The bodies of
//! all chapters, joined in order, are the body lines of the manuscript; and
//! all chapters written out, title and body, are the manuscript without its
//! separators and the blank lines that segmentation skips.

use crate::book::segment::{
    close_chapter, final_state, initial_state, numbered, segmented, take_line, take_lines, ChapterText,
    SegState,
};
use crate::text::trim;
use vstd::prelude::*;

verus! {

/// Chapters in strictly ascending order of their number.
pub open spec fn ascending(chapters: Seq<ChapterText>) -> bool {
    forall|i: int, j: int| 0 <= i < j < chapters.len() ==> chapters[i].index < chapters[j].index
}

/// Chapters whose numbers lie between 1 and `count`.
pub open spec fn numbered_within(chapters: Seq<ChapterText>, count: nat) -> bool {
    forall|i: int| 0 <= i < chapters.len() ==> 1 <= (#[trigger] chapters[i]).index <= count
}

/// What holds of every state that segmentation reaches after `k` lines.
pub open spec fn orderly(st: SegState, k: nat) -> bool {
    &&& numbered(st) <= k
    &&& st.content.len() > 0 ==> st.title.len() > 0
    &&& ascending(st.chapters)
    &&& numbered_within(st.chapters, st.count)
}

proof fn lemma_close_orderly(st: SegState, ranges: Seq<(usize, usize)>, k: nat)
    requires
        ascending(st.chapters),
        numbered_within(st.chapters, st.count),
        st.count + 1 <= k,
    ensures
        orderly(close_chapter(st, ranges), k),
{
    let next = close_chapter(st, ranges);
    assert forall|i: int, j: int| 0 <= i < j < next.chapters.len() implies next.chapters[i].index
        < next.chapters[j].index by {
        if j < st.chapters.len() {
            assert(next.chapters[i] == st.chapters[i]);
            assert(next.chapters[j] == st.chapters[j]);
        } else {
            assert(next.chapters[i] == st.chapters[i]);
        }
    }
    assert forall|i: int| 0 <= i < next.chapters.len() implies 1 <= (#[trigger] next.chapters[i]).index
        <= next.count by {
        if i < st.chapters.len() {
            assert(next.chapters[i] == st.chapters[i]);
        }
    }
}

proof fn lemma_take_line_orderly(
    st: SegState,
    line: Seq<char>,
    separator: Seq<char>,
    ranges: Seq<(usize, usize)>,
    k: nat,
)
    requires
        orderly(st, k),
    ensures
        orderly(take_line(st, line, separator, ranges), k + 1),
{
    if trim(line) == separator {
        lemma_close_orderly(st, ranges, k + 1);
    }
}

proof fn lemma_take_lines_orderly(lines: Seq<Seq<char>>, separator: Seq<char>, ranges: Seq<(usize, usize)>)
    ensures
        orderly(take_lines(initial_state(), lines, separator, ranges), lines.len()),
    decreases lines.len(),
{
    if lines.len() > 0 {
        lemma_take_lines_orderly(lines.drop_last(), separator, ranges);
        lemma_take_line_orderly(
            take_lines(initial_state(), lines.drop_last(), separator, ranges),
            lines.last(),
            separator,
            ranges,
            (lines.len() - 1) as nat,
        );
    }
}

/// The chapters that segmentation keeps stand in strictly ascending order of
/// their number, no number occurs twice, and every number lies between 1 and
/// the number of chapters in the manuscript, which is at most the number of
/// its lines.
pub proof fn lemma_chapters_ascending(
    lines: Seq<Seq<char>>,
    separator: Seq<char>,
    ranges: Seq<(usize, usize)>,
)
    ensures
        ascending(segmented(lines, separator, ranges)),
        numbered_within(
            segmented(lines, separator, ranges),
            final_state(lines, separator, ranges).count,
        ),
        final_state(lines, separator, ranges).count <= lines.len(),
{
    lemma_take_lines_orderly(lines, separator, ranges);
    let st = take_lines(initial_state(), lines, separator, ranges);
    if st.title.len() > 0 {
        lemma_close_orderly(st, ranges, lines.len());
    }
}

/// The selection that keeps every chapter.
pub open spec fn full_selection() -> Seq<(usize, usize)> {
    seq![(1usize, usize::MAX)]
}

/// All chapters of a manuscript.
pub open spec fn all_chapters(lines: Seq<Seq<char>>, separator: Seq<char>) -> Seq<ChapterText> {
    segmented(lines, separator, full_selection())
}

/// Whether one of the ranges holds the number `n`.
pub open spec fn selected(ranges: Seq<(usize, usize)>, n: nat) -> bool {
    exists|j: int| 0 <= j < ranges.len() && (#[trigger] ranges[j]).0 <= n <= ranges[j].1
}

/// Whether a chapter's number lies in one of the ranges.
pub open spec fn in_selection(ranges: Seq<(usize, usize)>) -> spec_fn(ChapterText) -> bool {
    |c: ChapterText| selected(ranges, c.index)
}

/// Ranges that do not touch: none is empty, none ends before the first
/// chapter, and each ends before the next one starts.
pub open spec fn separated(ranges: Seq<(usize, usize)>) -> bool {
    &&& forall|j: int|
        0 <= j < ranges.len() ==> (#[trigger] ranges[j]).0 <= ranges[j].1 && 1 <= ranges[j].1
    &&& forall|i: int, j: int|
        0 <= i < j < ranges.len() ==> (#[trigger] ranges[i]).1 < (#[trigger] ranges[j]).0
}

/// How a run under `ranges` and the run that keeps everything stand to each
/// other after the same `k` lines.
pub open spec fn in_step(st: SegState, full: SegState, ranges: Seq<(usize, usize)>, k: nat) -> bool {
    &&& st.count == full.count
    &&& st.title == full.title
    &&& st.content == full.content
    &&& full.cursor == 0
    &&& numbered(full) <= k
    &&& st.cursor <= ranges.len()
    &&& forall|j: int| 0 <= j < st.cursor ==> (#[trigger] ranges[j]).1 <= st.count
    &&& st.cursor < ranges.len() ==> ranges[st.cursor as int].1 > st.count
    &&& st.chapters == full.chapters.filter(in_selection(ranges))
}

proof fn lemma_active_range_decides(st: SegState, ranges: Seq<(usize, usize)>)
    requires
        separated(ranges),
        st.cursor <= ranges.len(),
        forall|j: int| 0 <= j < st.cursor ==> (#[trigger] ranges[j]).1 <= st.count,
        st.cursor < ranges.len() ==> ranges[st.cursor as int].1 > st.count,
    ensures
        selected(ranges, st.count + 1) <==> (st.cursor < ranges.len() && ranges[st.cursor as int].0
            <= st.count + 1 <= ranges[st.cursor as int].1),
{
    let n = st.count + 1;
    let c = st.cursor as int;
    if selected(ranges, n) {
        let j = choose|j: int| 0 <= j < ranges.len() && (#[trigger] ranges[j]).0 <= n <= ranges[j].1;
        if j < c {
            assert(ranges[j].1 <= st.count);
        } else if j > c {
            assert(ranges[c].1 < ranges[j].0);
        }
    }
}

proof fn lemma_close_in_step(st: SegState, full: SegState, ranges: Seq<(usize, usize)>, k: nat)
    requires
        separated(ranges),
        in_step(st, full, ranges, k),
        st.count + 1 <= k < usize::MAX,
    ensures
        in_step(close_chapter(st, ranges), close_chapter(full, full_selection()), ranges, k),
{
    let n = st.count + 1;
    let next = close_chapter(st, ranges);
    let next_full = close_chapter(full, full_selection());
    let chapter = ChapterText { index: n, title: st.title, body: st.content };
    lemma_active_range_decides(st, ranges);
    assert(full_selection()[0] == (1usize, usize::MAX));
    assert(next_full.chapters == full.chapters.push(chapter));
    assert(next_full.chapters.drop_last() =~= full.chapters);
    reveal(Seq::filter);
    assert(next.chapters == next_full.chapters.filter(in_selection(ranges)));
    let c = st.cursor as int;
    if st.cursor < ranges.len() && n >= ranges[c].1 {
        if c + 1 < ranges.len() {
            assert(ranges[c].1 < ranges[c + 1].0);
            assert(ranges[c + 1].0 <= ranges[c + 1].1);
        }
    }
}

proof fn lemma_take_line_in_step(
    st: SegState,
    full: SegState,
    line: Seq<char>,
    separator: Seq<char>,
    ranges: Seq<(usize, usize)>,
    k: nat,
)
    requires
        separated(ranges),
        in_step(st, full, ranges, k),
        k + 1 < usize::MAX,
    ensures
        in_step(
            take_line(st, line, separator, ranges),
            take_line(full, line, separator, full_selection()),
            ranges,
            k + 1,
        ),
{
    if trim(line) == separator {
        lemma_close_in_step(st, full, ranges, k + 1);
    }
}

proof fn lemma_take_lines_in_step(lines: Seq<Seq<char>>, separator: Seq<char>, ranges: Seq<(usize, usize)>)
    requires
        separated(ranges),
        lines.len() < usize::MAX,
    ensures
        in_step(
            take_lines(initial_state(), lines, separator, ranges),
            take_lines(initial_state(), lines, separator, full_selection()),
            ranges,
            lines.len(),
        ),
    decreases lines.len(),
{
    if lines.len() == 0 {
        reveal(Seq::filter);
        assert(Seq::<ChapterText>::empty().filter(in_selection(ranges)) =~= Seq::empty());
        if ranges.len() > 0 {
            assert(1 <= ranges[0].1);
        }
    } else {
        lemma_take_lines_in_step(lines.drop_last(), separator, ranges);
        lemma_take_line_in_step(
            take_lines(initial_state(), lines.drop_last(), separator, ranges),
            take_lines(initial_state(), lines.drop_last(), separator, full_selection()),
            lines.last(),
            separator,
            ranges,
            (lines.len() - 1) as nat,
        );
    }
}

/// With ranges that do not touch, segmentation keeps exactly the chapters of
/// the manuscript whose number lies in one of the ranges: each with the
/// number, the title and the body that it has in the manuscript, in the
/// order of the manuscript.
pub proof fn lemma_selection_is_exact(
    lines: Seq<Seq<char>>,
    separator: Seq<char>,
    ranges: Seq<(usize, usize)>,
)
    requires
        separated(ranges),
        lines.len() < usize::MAX,
    ensures
        segmented(lines, separator, ranges) == all_chapters(lines, separator).filter(
            in_selection(ranges),
        ),
{
    lemma_take_lines_in_step(lines, separator, ranges);
    let st = take_lines(initial_state(), lines, separator, ranges);
    let full = take_lines(initial_state(), lines, separator, full_selection());
    if st.title.len() > 0 {
        lemma_close_in_step(st, full, ranges, lines.len());
    }
}

/// Whether the chapter that is open after `lines` has a title, and whether
/// it has a body.
pub open spec fn open_chapter(lines: Seq<Seq<char>>, separator: Seq<char>) -> (bool, bool)
    decreases lines.len(),
{
    if lines.len() == 0 {
        (false, false)
    } else {
        let (titled, started) = open_chapter(lines.drop_last(), separator);
        let t = trim(lines.last());
        if t == separator {
            (false, false)
        } else if t.len() == 0 && (!titled || !started) {
            (titled, started)
        } else if !titled {
            (true, false)
        } else {
            (true, true)
        }
    }
}

/// Whether the line at position `i` is a body line: it is no separator, the
/// chapter it stands in has its title already, and it is not one of the
/// blank lines between the title and the body.
pub open spec fn is_body_line(lines: Seq<Seq<char>>, separator: Seq<char>, i: int) -> bool
    recommends
        0 <= i < lines.len(),
{
    let (titled, started) = open_chapter(lines.take(i), separator);
    let t = trim(lines[i]);
    t != separator && titled && (t.len() > 0 || started)
}

/// The body lines of a manuscript, each followed by a newline.
pub open spec fn body_text(lines: Seq<Seq<char>>, separator: Seq<char>) -> Seq<char>
    decreases lines.len(),
{
    if lines.len() == 0 {
        Seq::empty()
    } else if is_body_line(lines, separator, lines.len() - 1) {
        body_text(lines.drop_last(), separator) + lines.last() + seq!['\n']
    } else {
        body_text(lines.drop_last(), separator)
    }
}

/// The bodies of a list of chapters, joined in order.
pub open spec fn joined_bodies(chapters: Seq<ChapterText>) -> Seq<char>
    decreases chapters.len(),
{
    if chapters.len() == 0 {
        Seq::empty()
    } else {
        joined_bodies(chapters.drop_last()) + chapters.last().body
    }
}

/// How the run that keeps everything stands to the manuscript after `lines`.
pub open spec fn rejoins(full: SegState, lines: Seq<Seq<char>>, separator: Seq<char>) -> bool {
    &&& full.cursor == 0
    &&& numbered(full) <= lines.len()
    &&& full.content.len() > 0 ==> full.title.len() > 0
    &&& open_chapter(lines, separator) == (full.title.len() > 0, full.content.len() > 0)
    &&& joined_bodies(full.chapters) + full.content == body_text(lines, separator)
}

proof fn lemma_close_rejoins(full: SegState)
    requires
        full.cursor == 0,
        full.count + 1 < usize::MAX,
    ensures
        joined_bodies(close_chapter(full, full_selection()).chapters) == joined_bodies(full.chapters)
            + full.content,
        close_chapter(full, full_selection()).cursor == 0,
{
    let next = close_chapter(full, full_selection());
    assert(full_selection()[0] == (1usize, usize::MAX));
    assert(next.chapters.drop_last() =~= full.chapters);
}

proof fn lemma_take_lines_rejoins(lines: Seq<Seq<char>>, separator: Seq<char>)
    requires
        lines.len() < usize::MAX,
    ensures
        rejoins(take_lines(initial_state(), lines, separator, full_selection()), lines, separator),
    decreases lines.len(),
{
    let full = take_lines(initial_state(), lines, separator, full_selection());
    if lines.len() == 0 {
        assert(joined_bodies(full.chapters) + full.content =~= Seq::<char>::empty());
    } else {
        let before = lines.drop_last();
        let prev = take_lines(initial_state(), before, separator, full_selection());
        lemma_take_lines_rejoins(before, separator);
        assert(lines.take(lines.len() - 1) =~= before);
        let t = trim(lines.last());
        if t == separator {
            lemma_close_rejoins(prev);
            assert(joined_bodies(full.chapters) + full.content =~= joined_bodies(prev.chapters)
                + prev.content);
        } else if t.len() == 0 && (prev.title.len() == 0 || prev.content.len() == 0) {
        } else if prev.title.len() == 0 {
        } else {
            assert(joined_bodies(full.chapters) + full.content =~= joined_bodies(prev.chapters)
                + prev.content + lines.last() + seq!['\n']);
        }
    }
}

/// Joining the bodies of all chapters of a manuscript, in the order of the
/// chapters, gives back the manuscript without its separator lines, its
/// title lines, and the blank lines before a title or between a title and
/// the body: every other line, unchanged and followed by a newline.
pub proof fn lemma_bodies_rejoin(lines: Seq<Seq<char>>, separator: Seq<char>)
    requires
        lines.len() < usize::MAX,
    ensures
        joined_bodies(all_chapters(lines, separator)) == body_text(lines, separator),
{
    lemma_take_lines_rejoins(lines, separator);
    let full = take_lines(initial_state(), lines, separator, full_selection());
    lemma_take_lines_orderly(lines, separator, full_selection());
    if full.title.len() > 0 {
        lemma_close_rejoins(full);
    } else {
        assert(joined_bodies(full.chapters) + full.content =~= joined_bodies(full.chapters));
    }
}

/// Whether the line at position `i` is a title line: it is no separator, it
/// is not blank, and the chapter it stands in has no title yet.
pub open spec fn is_title_line(lines: Seq<Seq<char>>, separator: Seq<char>, i: int) -> bool
    recommends
        0 <= i < lines.len(),
{
    let (titled, started) = open_chapter(lines.take(i), separator);
    let t = trim(lines[i]);
    t != separator && !titled && t.len() > 0
}

/// What segmentation keeps of a manuscript: every title line, trimmed, and
/// every body line, unchanged, each followed by a newline. Separator lines
/// and the blank lines before a title or between a title and the body are
/// left out.
pub open spec fn kept_text(lines: Seq<Seq<char>>, separator: Seq<char>) -> Seq<char>
    decreases lines.len(),
{
    if lines.len() == 0 {
        Seq::empty()
    } else if is_body_line(lines, separator, lines.len() - 1) {
        kept_text(lines.drop_last(), separator) + lines.last() + seq!['\n']
    } else if is_title_line(lines, separator, lines.len() - 1) {
        kept_text(lines.drop_last(), separator) + trim(lines.last()) + seq!['\n']
    } else {
        kept_text(lines.drop_last(), separator)
    }
}

/// A chapter written out: its title on a line of its own, then its body. A
/// chapter without title is written as nothing.
pub open spec fn written(title: Seq<char>, body: Seq<char>) -> Seq<char> {
    if title.len() > 0 {
        title + seq!['\n'] + body
    } else {
        Seq::empty()
    }
}

/// The chapters of a list written out one after the other.
pub open spec fn joined_chapters(chapters: Seq<ChapterText>) -> Seq<char>
    decreases chapters.len(),
{
    if chapters.len() == 0 {
        Seq::empty()
    } else {
        joined_chapters(chapters.drop_last()) + written(chapters.last().title, chapters.last().body)
    }
}

proof fn lemma_take_lines_retells(lines: Seq<Seq<char>>, separator: Seq<char>)
    requires
        lines.len() < usize::MAX,
    ensures
        ({
            let full = take_lines(initial_state(), lines, separator, full_selection());
            joined_chapters(full.chapters) + written(full.title, full.content) == kept_text(
                lines,
                separator,
            )
        }),
    decreases lines.len(),
{
    let full = take_lines(initial_state(), lines, separator, full_selection());
    if lines.len() == 0 {
        assert(joined_chapters(full.chapters) + written(full.title, full.content) =~= Seq::<
            char,
        >::empty());
    } else {
        let before = lines.drop_last();
        let prev = take_lines(initial_state(), before, separator, full_selection());
        lemma_take_lines_retells(before, separator);
        lemma_take_lines_rejoins(before, separator);
        assert(lines.take(lines.len() - 1) =~= before);
        let t = trim(lines.last());
        let told = joined_chapters(prev.chapters) + written(prev.title, prev.content);
        if t == separator {
            assert(full_selection()[0] == (1usize, usize::MAX));
            assert(full.chapters.drop_last() =~= prev.chapters);
            assert(joined_chapters(full.chapters) + written(full.title, full.content) =~= told);
        } else if t.len() == 0 && (prev.title.len() == 0 || prev.content.len() == 0) {
        } else if prev.title.len() == 0 {
            assert(joined_chapters(full.chapters) + written(full.title, full.content) =~= told + t
                + seq!['\n']);
        } else {
            assert(joined_chapters(full.chapters) + written(full.title, full.content) =~= told
                + lines.last() + seq!['\n']);
        }
    }
}

/// Writing out all chapters of a manuscript, in the order of the chapters,
/// each as its title line followed by its body, gives back the manuscript
/// without its separator lines and without the blank lines before a title or
/// between a title and the body: the title lines trimmed, every body line
/// unchanged, each followed by a newline.
pub proof fn lemma_chapters_rejoin(lines: Seq<Seq<char>>, separator: Seq<char>)
    requires
        lines.len() < usize::MAX,
    ensures
        joined_chapters(all_chapters(lines, separator)) == kept_text(lines, separator),
{
    lemma_take_lines_retells(lines, separator);
    lemma_take_lines_rejoins(lines, separator);
    let full = take_lines(initial_state(), lines, separator, full_selection());
    if full.title.len() > 0 {
        assert(full_selection()[0] == (1usize, usize::MAX));
        let closed = close_chapter(full, full_selection());
        assert(closed.chapters.drop_last() =~= full.chapters);
    } else {
        assert(joined_chapters(full.chapters) + written(full.title, full.content) =~= joined_chapters(
            full.chapters,
        ));
    }
}

} // verus!

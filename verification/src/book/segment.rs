//! Splitting a manuscript into chapters.
//!
//! A manuscript is a sequence of lines. A line that, once trimmed, equals the
//! separator closes a chapter. Within a chapter the first non-blank line is
//! the title, and the lines after it, from the first non-blank one on, are the
//! body. Chapters are numbered from 1 in manuscript order; a cursor into the
//! sorted selection decides which of them are kept.

use crate::text::{same_text, string_texts, trim, trimmed};
use vstd::prelude::*;
use vstd::string::*;

verus! {

/// A chapter as text: its 1-based position in the manuscript, its title and
/// its body.
pub struct ChapterText {
    pub index: nat,
    pub title: Seq<char>,
    pub body: Seq<char>,
}

/// A chapter that segmentation produced.
#[derive(Debug, PartialEq, Eq)]
pub struct ChapterBody {
    /// 1-based position in the manuscript.
    pub index: usize,
    /// The first non-blank line of the chapter, trimmed.
    pub title: String,
    /// The body lines, each followed by a newline.
    pub body: String,
}

impl View for ChapterBody {
    type V = ChapterText;

    open spec fn view(&self) -> ChapterText {
        ChapterText { index: self.index as nat, title: self.title@, body: self.body@ }
    }
}

/// The chapters of a list as text.
pub open spec fn texts(chapters: Seq<ChapterBody>) -> Seq<ChapterText> {
    chapters.map_values(|c: ChapterBody| c@)
}

/// The state of segmentation between two lines.
pub struct SegState {
    /// How many chapters have been closed.
    pub count: nat,
    /// The title of the open chapter; empty until its first non-blank line.
    pub title: Seq<char>,
    /// The body of the open chapter so far.
    pub content: Seq<char>,
    /// The position of the active range in the selection.
    pub cursor: nat,
    /// The chapters kept so far.
    pub chapters: Seq<ChapterText>,
}

/// The state before the first line.
pub open spec fn initial_state() -> SegState {
    SegState {
        count: 0,
        title: Seq::empty(),
        content: Seq::empty(),
        cursor: 0,
        chapters: Seq::empty(),
    }
}

/// Closes the open chapter: it gets the next number; it is kept if the active
/// range holds that number; the cursor moves on once the number has reached
/// the end of the active range.
pub open spec fn close_chapter(st: SegState, ranges: Seq<(usize, usize)>) -> SegState {
    let n = st.count + 1;
    let active = st.cursor < ranges.len();
    let keep = active && ranges[st.cursor as int].0 <= n <= ranges[st.cursor as int].1;
    let advance = active && n >= ranges[st.cursor as int].1;
    SegState {
        count: n,
        title: Seq::empty(),
        content: Seq::empty(),
        cursor: if advance {
            st.cursor + 1
        } else {
            st.cursor
        },
        chapters: if keep {
            st.chapters.push(ChapterText { index: n, title: st.title, body: st.content })
        } else {
            st.chapters
        },
    }
}

/// Takes one line of the manuscript.
pub open spec fn take_line(
    st: SegState,
    line: Seq<char>,
    separator: Seq<char>,
    ranges: Seq<(usize, usize)>,
) -> SegState {
    let t = trim(line);
    if t == separator {
        close_chapter(st, ranges)
    } else if t.len() == 0 && (st.title.len() == 0 || st.content.len() == 0) {
        st
    } else if st.title.len() == 0 {
        SegState { title: t, ..st }
    } else {
        SegState { content: st.content + line + seq!['\n'], ..st }
    }
}

/// Takes the lines of a manuscript in order.
pub open spec fn take_lines(
    st: SegState,
    lines: Seq<Seq<char>>,
    separator: Seq<char>,
    ranges: Seq<(usize, usize)>,
) -> SegState
    decreases lines.len(),
{
    if lines.len() == 0 {
        st
    } else {
        take_line(take_lines(st, lines.drop_last(), separator, ranges), lines.last(), separator, ranges)
    }
}

/// The end of the manuscript closes a chapter that has a title.
pub open spec fn end_of_text(st: SegState, ranges: Seq<(usize, usize)>) -> SegState {
    if st.title.len() > 0 {
        close_chapter(st, ranges)
    } else {
        st
    }
}

/// The state after the whole manuscript.
pub open spec fn final_state(
    lines: Seq<Seq<char>>,
    separator: Seq<char>,
    ranges: Seq<(usize, usize)>,
) -> SegState {
    end_of_text(take_lines(initial_state(), lines, separator, ranges), ranges)
}

/// The chapters that segmentation keeps of a manuscript.
pub open spec fn segmented(
    lines: Seq<Seq<char>>,
    separator: Seq<char>,
    ranges: Seq<(usize, usize)>,
) -> Seq<ChapterText> {
    final_state(lines, separator, ranges).chapters
}

/// How far segmentation has numbered, counting the open chapter if it has a
/// title. Each line raises this by at most one.
pub open spec fn numbered(st: SegState) -> nat {
    if st.title.len() > 0 {
        st.count + 1
    } else {
        st.count
    }
}

/// A segmenter: feed it the lines in order, then finish.
pub struct Segmenter {
    pub chapter_num: usize,
    pub title: String,
    pub content: String,
    pub cursor: usize,
    pub chapters: Vec<ChapterBody>,
}

impl View for Segmenter {
    type V = SegState;

    open spec fn view(&self) -> SegState {
        SegState {
            count: self.chapter_num as nat,
            title: self.title@,
            content: self.content@,
            cursor: self.cursor as nat,
            chapters: texts(self.chapters@),
        }
    }
}

impl Segmenter {
    /// A segmenter that has seen no line.
    pub fn new() -> (s: Segmenter)
        ensures
            s@ == initial_state(),
            s.cursor == 0,
    {
        let s = Segmenter {
            chapter_num: 0,
            title: String::new(),
            content: String::new(),
            cursor: 0,
            chapters: Vec::new(),
        };
        assert(s@.chapters =~= Seq::empty());
        s
    }

    /// Closes the open chapter.
    pub fn finish_chapter(&mut self, ranges: &Vec<(usize, usize)>)
        requires
            old(self).chapter_num < usize::MAX,
            old(self).cursor <= ranges.len(),
        ensures
            final(self)@ == close_chapter(old(self)@, ranges@),
            final(self).cursor <= ranges.len(),
    {
        self.chapter_num = self.chapter_num + 1;
        if self.cursor < ranges.len() {
            let (start, end) = ranges[self.cursor];
            if start <= self.chapter_num && self.chapter_num <= end {
                let chapter = ChapterBody {
                    index: self.chapter_num,
                    title: self.title.clone(),
                    body: self.content.clone(),
                };
                self.chapters.push(chapter);
                assert(texts(self.chapters@) =~= texts(old(self).chapters@).push(chapter@));
            }
            if self.chapter_num >= end {
                self.cursor = self.cursor + 1;
            }
        }
        self.title = String::new();
        self.content = String::new();
    }

    /// Takes the next line of the manuscript.
    pub fn feed_line(&mut self, line: &str, separator: &str, ranges: &Vec<(usize, usize)>)
        requires
            old(self).chapter_num < usize::MAX,
            old(self).cursor <= ranges.len(),
        ensures
            final(self)@ == take_line(old(self)@, line@, separator@, ranges@),
            final(self).cursor <= ranges.len(),
    {
        let t = trimmed(line);
        if same_text(t, separator) {
            self.finish_chapter(ranges);
        } else if t.is_empty() && (self.title.as_str().is_empty()
            || self.content.as_str().is_empty()) {
        } else if self.title.as_str().is_empty() {
            self.title = String::from_str(t);
        } else {
            proof {
                reveal_strlit("\n");
                assert("\n"@ =~= seq!['\n']);
            }
            self.content.append(line);
            self.content.append("\n");
        }
    }

    /// Closes the last chapter, if it has a title, and hands out the chapters
    /// that were kept.
    pub fn finish(self, ranges: &Vec<(usize, usize)>) -> (chapters: Vec<ChapterBody>)
        requires
            self.title@.len() > 0 ==> self.chapter_num < usize::MAX,
            self.cursor <= ranges.len(),
        ensures
            texts(chapters@) == end_of_text(self@, ranges@).chapters,
    {
        let mut last = self;
        if !last.title.as_str().is_empty() {
            last.finish_chapter(ranges);
        }
        last.chapters
    }
}

/// Splits a manuscript, given as its lines, into the selected chapters.
pub fn parse_chapters(lines: &Vec<String>, separator: &str, ranges: &Vec<(usize, usize)>) -> (chapters:
    Vec<ChapterBody>)
    ensures
        texts(chapters@) == segmented(string_texts(lines@), separator@, ranges@),
{
    let mut seg = Segmenter::new();
    let ghost all = string_texts(lines@);
    let mut i: usize = 0;
    assert(all.take(0) =~= Seq::<Seq<char>>::empty());
    while i < lines.len()
        invariant
            i <= lines.len(),
            all == string_texts(lines@),
            seg.cursor <= ranges.len(),
            seg@ == take_lines(initial_state(), all.take(i as int), separator@, ranges@),
            numbered(seg@) <= i,
        decreases lines.len() - i,
    {
        proof {
            assert(all.take(i + 1).drop_last() =~= all.take(i as int));
            assert(all.take(i + 1).last() == lines@[i as int]@);
        }
        seg.feed_line(lines[i].as_str(), separator, ranges);
        i += 1;
    }
    assert(all.take(lines.len() as int) =~= all);
    seg.finish(ranges)
}

} // verus!

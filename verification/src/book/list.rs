//! The chapter list of a book: one line per published chapter, holding the
//! chapter's number in the manuscript, a comma, and its title.

use crate::book::Config;
use crate::text::{
    decimal, decimal_string, find_char, index_of, is_digit, lemma_decimal_digits, lemma_index_of_at,
    lemma_parse_decimal, parse_number, parsed, same_text, string_texts, to_chars, trim, trim_bounds, trimmed,
};
use vstd::prelude::*;
use vstd::seq_lib::*;
use vstd::string::*;

verus! {

/// An entry of a chapter list as text.
pub type EntryText = (usize, Seq<char>);

/// The text of a list of entries.
pub open spec fn entry_texts(entries: Seq<(usize, String)>) -> Seq<EntryText> {
    entries.map_values(|e: (usize, String)| (e.0, e.1@))
}

/// The line that lists a chapter.
pub open spec fn entry_line(index: usize, title: Seq<char>) -> Seq<char> {
    decimal(index as nat) + ","@ + title
}

/// What a line of a chapter list says: the number before the first comma and
/// the title behind it, both trimmed. A line without comma, or whose number
/// is none, says nothing.
pub open spec fn entry_of(line: Seq<char>) -> Option<EntryText> {
    let k = index_of(line, ',');
    if 0 <= k < line.len() {
        match parsed(trim(line.take(k))) {
            Some(index) => Some((index, trim(line.skip(k + 1)))),
            None => None,
        }
    } else {
        None
    }
}

/// The line that lists a chapter says, when it is read back, the chapter's
/// number and its title, trimmed.
pub proof fn lemma_entry_reads_back(index: usize, title: Seq<char>)
    ensures
        entry_of(entry_line(index, title)) == Some((index, trim(title))),
{
    reveal_strlit(",");
    let number = decimal(index as nat);
    let line = entry_line(index, title);
    let k = number.len() as int;
    lemma_decimal_digits(index as nat);
    lemma_parse_decimal(index);
    assert forall|i: int| 0 <= i < k implies line[i] != ',' by {
        assert(line[i] == number[i]);
        assert(is_digit(number[i]));
    }
    assert(line[k] == ',');
    lemma_index_of_at(line, ',', k);
    assert(line.take(k) =~= number);
    assert(line.skip(k + 1) =~= title);
    assert(is_digit(number[0]));
    assert(is_digit(number.last()));
    assert(trim(number) == number);
}

/// The entries of the lines of a chapter list, in the order of the lines.
pub open spec fn entries_of(lines: Seq<Seq<char>>) -> Seq<EntryText>
    decreases lines.len(),
{
    if lines.len() == 0 {
        Seq::empty()
    } else {
        match entry_of(lines.last()) {
            Some(e) => entries_of(lines.drop_last()).push(e),
            None => entries_of(lines.drop_last()),
        }
    }
}

/// Reads one line of a chapter list.
pub fn parse_entry(line: &str) -> (r: Option<(usize, String)>)
    ensures
        match entry_of(line@) {
            Some(e) => r is Some && r->Some_0.0 == e.0 && r->Some_0.1@ == e.1,
            None => r is None,
        },
{
    let v = to_chars(line);
    let k = find_char(&v, 0, v.len(), ',');
    proof {
        assert(v@.subrange(0, v.len() as int) =~= v@);
    }
    if k == v.len() {
        return None;
    }
    let (a, b) = trim_bounds(&v, 0, k);
    let (c, d) = trim_bounds(&v, k + 1, v.len());
    proof {
        assert(v@.take(k as int) =~= v@.subrange(0, k as int));
        assert(v@.skip(k + 1) =~= v@.subrange(k + 1, v.len() as int));
    }
    match parse_number(&v, a, b) {
        Some(index) => Some((index, String::from_str(line.substring_char(c, d)))),
        None => None,
    }
}

/// What is known of the titles of a manuscript while its lines are read: the
/// title of each closed group of lines, whether the open group holds a line,
/// and the title of the open group.
pub struct TitleState {
    pub titles: Seq<Option<Seq<char>>>,
    pub open: bool,
    pub title: Option<Seq<char>>,
}

/// Takes one line. A separator line closes the open group if it holds a
/// line; any other line belongs to the open group, whose title is its first
/// line that is not blank, trimmed.
pub open spec fn title_step(st: TitleState, line: Seq<char>, separator: Seq<char>) -> TitleState {
    let t = trim(line);
    if t == trim(separator) {
        if st.open {
            TitleState { titles: st.titles.push(st.title), open: false, title: None }
        } else {
            st
        }
    } else {
        TitleState {
            titles: st.titles,
            open: true,
            title: if st.title is None && t.len() > 0 {
                Some(t)
            } else {
                st.title
            },
        }
    }
}

/// Takes the lines of a manuscript in order.
pub open spec fn title_steps(lines: Seq<Seq<char>>, separator: Seq<char>) -> TitleState
    decreases lines.len(),
{
    if lines.len() == 0 {
        TitleState { titles: Seq::empty(), open: false, title: None }
    } else {
        title_step(title_steps(lines.drop_last(), separator), lines.last(), separator)
    }
}

/// The titles of the groups of a manuscript, in order: the groups are what
/// lies between separator lines, groups without any line do not count, and a
/// group of blank lines has no title.
pub open spec fn group_titles(lines: Seq<Seq<char>>, separator: Seq<char>) -> Seq<Option<Seq<char>>> {
    let st = title_steps(lines, separator);
    if st.open {
        st.titles.push(st.title)
    } else {
        st.titles
    }
}

/// The number of the last group with the title `title`, counting from 1.
pub open spec fn number_of_title(titles: Seq<Option<Seq<char>>>, title: Seq<char>) -> Option<usize>
    decreases titles.len(),
{
    if titles.len() == 0 {
        None
    } else if titles.last() == Some(title) && titles.len() <= usize::MAX {
        Some(titles.len() as usize)
    } else {
        number_of_title(titles.drop_last(), title)
    }
}

/// The entries of the given titles: each title that, trimmed, is the title
/// of a group, with the number of that group; in the order of the titles.
pub open spec fn found_entries(titles: Seq<Option<Seq<char>>>, wanted: Seq<Seq<char>>) -> Seq<EntryText>
    decreases wanted.len(),
{
    if wanted.len() == 0 {
        Seq::empty()
    } else {
        match number_of_title(titles, trim(wanted.last())) {
            Some(n) => found_entries(titles, wanted.drop_last()).push((n, wanted.last())),
            None => found_entries(titles, wanted.drop_last()),
        }
    }
}

/// Entries in ascending order of their number.
pub open spec fn sorted_by_number(entries: Seq<EntryText>) -> bool {
    forall|i: int, j: int| 0 <= i <= j < entries.len() ==> entries[i].0 <= entries[j].0
}

/// The texts of a list of optional titles.
pub open spec fn title_texts(titles: Seq<Option<String>>) -> Seq<Option<Seq<char>>> {
    titles.map_values(
        |t: Option<String>|
            match t {
                Some(s) => Some(s@),
                None => None,
            },
    )
}

/// The titles of the groups of a manuscript, given as its lines.
pub fn read_group_titles(lines: &Vec<String>, separator: &str) -> (titles: Vec<Option<String>>)
    ensures
        title_texts(titles@) == group_titles(string_texts(lines@), separator@),
{
    let mark = trimmed(separator);
    let mut titles: Vec<Option<String>> = Vec::new();
    let mut open = false;
    let mut title: Option<String> = None;
    let ghost all = string_texts(lines@);
    let mut i: usize = 0;
    assert(all.take(0) =~= Seq::<Seq<char>>::empty());
    assert(title_texts(titles@) =~= Seq::<Option<Seq<char>>>::empty());
    while i < lines.len()
        invariant
            i <= lines.len(),
            all == string_texts(lines@),
            mark@ == trim(separator@),
            title_steps(all.take(i as int), separator@) == (TitleState {
                titles: title_texts(titles@),
                open,
                title: match title {
                    Some(s) => Some(s@),
                    None => None,
                },
            }),
        decreases lines.len() - i,
    {
        proof {
            assert(all.take(i + 1).drop_last() =~= all.take(i as int));
            assert(all.take(i + 1).last() == lines@[i as int]@);
        }
        let t = trimmed(lines[i].as_str());
        if same_text(t, mark) {
            if open {
                assert(title_texts(titles@.push(title)) =~= title_texts(titles@).push(
                    match title {
                        Some(s) => Some(s@),
                        None => None,
                    },
                ));
                titles.push(title);
                title = None;
                open = false;
            }
        } else {
            open = true;
            if title.is_none() && !t.is_empty() {
                title = Some(String::from_str(t));
            }
        }
        i += 1;
    }
    assert(all.take(lines.len() as int) =~= all);
    if open {
        assert(title_texts(titles@.push(title)) =~= title_texts(titles@).push(
            match title {
                Some(s) => Some(s@),
                None => None,
            },
        ));
        titles.push(title);
    }
    titles
}

/// The number of the last group with this title.
pub fn find_title(titles: &Vec<Option<String>>, title: &str) -> (r: Option<usize>)
    ensures
        r == number_of_title(title_texts(titles@), title@),
{
    let ghost all = title_texts(titles@);
    let mut k: usize = titles.len();
    assert(all.take(k as int) =~= all);
    while k > 0
        invariant
            k <= titles.len(),
            all == title_texts(titles@),
            number_of_title(all, title@) == number_of_title(all.take(k as int), title@),
        decreases k,
    {
        proof {
            assert(all.take(k as int).drop_last() =~= all.take(k - 1));
            assert(all.take(k as int).last() == all[k - 1]);
        }
        let found = match &titles[k - 1] {
            Some(t) => same_text(t.as_str(), title),
            None => false,
        };
        if found {
            return Some(k);
        }
        k -= 1;
    }
    None
}

/// Puts `entry` into the sorted `entries`, behind every entry whose number
/// is not larger.
pub fn insert_by_number(entries: &mut Vec<(usize, String)>, entry: (usize, String))
    requires
        sorted_by_number(entry_texts(old(entries)@)),
    ensures
        sorted_by_number(entry_texts(final(entries)@)),
        entry_texts(final(entries)@).to_multiset() == entry_texts(old(entries)@).to_multiset().insert(
            (entry.0, entry.1@),
        ),
{
    let mut p: usize = 0;
    while p < entries.len() && entries[p].0 <= entry.0
        invariant
            p <= entries.len(),
            *entries == *old(entries),
            forall|i: int| 0 <= i < p ==> entry_texts(entries@)[i].0 <= entry.0,
        decreases entries.len() - p,
    {
        assert(entry_texts(entries@)[p as int].0 == entries@[p as int].0);
        p += 1;
    }
    proof {
        let before = entry_texts(entries@);
        to_multiset_insert(before, p as int, (entry.0, entry.1@));
        assert(entry_texts(entries@.insert(p as int, entry)) =~= before.insert(
            p as int,
            (entry.0, entry.1@),
        ));
        if p < entries.len() {
            assert(before[p as int].0 == entries@[p as int].0);
        }
    }
    entries.insert(p, entry);
}

impl Config {
    /// The line that lists the chapter with this number and title, to be
    /// appended to the chapter list.
    pub fn append_chapter(index: usize, title: &str) -> (line: String)
        ensures
            line@ == entry_line(index, title@),
    {
        let mut line = decimal_string(index);
        line.append(",");
        line.append(title);
        line
    }

    /// Reads a chapter list, given as its lines. Lines that say nothing are
    /// passed over.
    pub fn load_chapter_list(lines: &Vec<String>) -> (entries: Vec<(usize, String)>)
        ensures
            entry_texts(entries@) == entries_of(string_texts(lines@)),
    {
        let mut entries: Vec<(usize, String)> = Vec::new();
        let ghost all = string_texts(lines@);
        let mut i: usize = 0;
        assert(all.take(0) =~= Seq::<Seq<char>>::empty());
        assert(entry_texts(entries@) =~= Seq::<EntryText>::empty());
        while i < lines.len()
            invariant
                i <= lines.len(),
                all == string_texts(lines@),
                entry_texts(entries@) == entries_of(all.take(i as int)),
            decreases lines.len() - i,
        {
            proof {
                assert(all.take(i + 1).drop_last() =~= all.take(i as int));
                assert(all.take(i + 1).last() == lines@[i as int]@);
            }
            match parse_entry(lines[i].as_str()) {
                Some(entry) => {
                    assert(entry_texts(entries@.push(entry)) =~= entry_texts(entries@).push(
                        (entry.0, entry.1@),
                    ));
                    entries.push(entry);
                },
                None => {},
            }
            i += 1;
        }
        assert(all.take(lines.len() as int) =~= all);
        entries
    }

    /// Brings a chapter list in line with the manuscript: of the given titles,
    /// those that, trimmed, are the title of a group of the manuscript are
    /// listed, each under the number of the last group with that title and as it
    /// was given, in ascending order of the numbers. Entries with the same number
    /// may stand in either order.
    pub fn chapters_sync(&self, wanted: &Vec<String>, lines: &Vec<String>) -> (entries: Vec<(usize, String)>)
        ensures
            sorted_by_number(entry_texts(entries@)),
            entry_texts(entries@).to_multiset() == found_entries(
                group_titles(string_texts(lines@), self@.chapter_separator),
                string_texts(wanted@),
            ).to_multiset(),
    {
        let titles = read_group_titles(lines, self.chapter_separator());
        let ghost groups = group_titles(string_texts(lines@), self@.chapter_separator);
        let ghost all = string_texts(wanted@);
        let mut entries: Vec<(usize, String)> = Vec::new();
        let mut i: usize = 0;
        assert(all.take(0) =~= Seq::<Seq<char>>::empty());
        assert(entry_texts(entries@) =~= Seq::<EntryText>::empty());
        while i < wanted.len()
            invariant
                i <= wanted.len(),
                all == string_texts(wanted@),
                groups == title_texts(titles@),
                sorted_by_number(entry_texts(entries@)),
                entry_texts(entries@).to_multiset() == found_entries(groups, all.take(i as int)).to_multiset(),
            decreases wanted.len() - i,
        {
            proof {
                assert(all.take(i + 1).drop_last() =~= all.take(i as int));
                assert(all.take(i + 1).last() == wanted@[i as int]@);
            }
            let title = wanted[i].as_str();
            match find_title(&titles, trimmed(title)) {
                Some(n) => {
                    proof {
                        to_multiset_build(found_entries(groups, all.take(i as int)), (n, title@));
                    }
                    insert_by_number(&mut entries, (n, String::from_str(title)));
                },
                None => {},
            }
            i += 1;
        }
        assert(all.take(wanted.len() as int) =~= all);
        entries
    }
}

} // verus!

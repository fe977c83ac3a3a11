use auto_esj::book::segment::{parse_chapters, ChapterBody, Segmenter};

fn lines(text: &[&str]) -> Vec<String> {
    text.iter().map(|l| l.to_string()).collect()
}

fn chapter(index: usize, title: &str, body: &str) -> ChapterBody {
    ChapterBody { index, title: title.to_string(), body: body.to_string() }
}

#[test]
fn only_the_selected_chapter_is_kept() {
    let manuscript = lines(&["A", "a1", "a2", "---", "B", "b1", "b2", "b3"]);
    let chapters = parse_chapters(&manuscript, "---", &vec![(1, 1)]);
    assert_eq!(chapters, vec![chapter(1, "A", "a1\na2\n")]);
    assert!(chapters.iter().all(|c| c.index != 2));
}

#[test]
fn last_chapter_needs_no_separator() {
    let manuscript = lines(&["A", "a1", "---", "B", "b1"]);
    let chapters = parse_chapters(&manuscript, "---", &vec![(1, usize::MAX)]);
    assert_eq!(chapters, vec![chapter(1, "A", "a1\n"), chapter(2, "B", "b1\n")]);
}

#[test]
fn separator_is_matched_after_trimming() {
    let manuscript = lines(&["A", "a1", "  ---\t", "B", "b1", "--- x", "b2"]);
    let chapters = parse_chapters(&manuscript, "---", &vec![(1, usize::MAX)]);
    assert_eq!(chapters, vec![chapter(1, "A", "a1\n"), chapter(2, "B", "b1\n--- x\nb2\n")]);
}

#[test]
fn title_is_trimmed_and_body_lines_are_not() {
    let manuscript = lines(&["   Title  ", "  indented  ", "---"]);
    let chapters = parse_chapters(&manuscript, "---", &vec![(1, 1)]);
    assert_eq!(chapters, vec![chapter(1, "Title", "  indented  \n")]);
}

#[test]
fn blank_lines_before_title_and_before_body_are_skipped() {
    let manuscript = lines(&["", "  ", "T", "", " ", "first", "", "second", "", "---"]);
    let chapters = parse_chapters(&manuscript, "---", &vec![(1, 1)]);
    assert_eq!(chapters, vec![chapter(1, "T", "first\n\nsecond\n\n")]);
}

#[test]
fn chapters_keep_their_manuscript_number() {
    let manuscript = lines(&["A", "a", "---", "B", "b", "---", "C", "c", "---", "D", "d"]);
    let chapters = parse_chapters(&manuscript, "---", &vec![(2, 2), (4, 9)]);
    assert_eq!(chapters, vec![chapter(2, "B", "b\n"), chapter(4, "D", "d\n")]);
}

#[test]
fn empty_chapter_between_separators_is_counted() {
    let manuscript = lines(&["A", "a", "---", "---", "C", "c"]);
    let chapters = parse_chapters(&manuscript, "---", &vec![(1, usize::MAX)]);
    assert_eq!(chapters, vec![chapter(1, "A", "a\n"), chapter(2, "", ""), chapter(3, "C", "c\n")]);
}

#[test]
fn untitled_rest_is_not_a_chapter() {
    let manuscript = lines(&["A", "a", "---", "", "  "]);
    let chapters = parse_chapters(&manuscript, "---", &vec![(1, usize::MAX)]);
    assert_eq!(chapters, vec![chapter(1, "A", "a\n")]);
}

#[test]
fn empty_manuscript_has_no_chapter() {
    assert_eq!(parse_chapters(&vec![], "---", &vec![(1, usize::MAX)]), vec![]);
}

#[test]
fn empty_selection_keeps_nothing() {
    let manuscript = lines(&["A", "a", "---", "B", "b"]);
    assert_eq!(parse_chapters(&manuscript, "---", &vec![]), vec![]);
}

#[test]
fn cursor_never_goes_back() {
    let manuscript = lines(&["A", "a", "---", "B", "b", "---", "C", "c"]);
    let chapters = parse_chapters(&manuscript, "---", &vec![(1, 1), (1, 1), (2, 2)]);
    assert_eq!(chapters, vec![chapter(1, "A", "a\n")]);
}

#[test]
fn joining_the_bodies_gives_back_the_body_lines() {
    let manuscript = lines(&["", "One", "", "x", "", "y", "---", "Two", "z", " --- ", "Three", "", "w"]);
    let chapters = parse_chapters(&manuscript, "---", &vec![(1, usize::MAX)]);
    let joined: String = chapters.iter().map(|c| c.body.as_str()).collect();
    assert_eq!(joined, "x\n\ny\nz\nw\n");
    let titles: Vec<&str> = chapters.iter().map(|c| c.title.as_str()).collect();
    assert_eq!(titles, vec!["One", "Two", "Three"]);
}

#[test]
fn feeding_lines_one_by_one_gives_the_same_chapters() {
    let ranges = vec![(1, 2)];
    let mut segmenter = Segmenter::new();
    for line in ["A", "a", "---", "B", "b", "---", "C"] {
        segmenter.feed_line(line, "---", &ranges);
    }
    assert_eq!(segmenter.chapter_num, 2);
    assert_eq!(segmenter.title, "C");
    let chapters = segmenter.finish(&ranges);
    assert_eq!(chapters, vec![chapter(1, "A", "a\n"), chapter(2, "B", "b\n")]);
}

#[test]
fn unicode_whitespace_is_trimmed() {
    let manuscript = lines(&["\u{3000}題名\u{3000}", "本文", "\u{3000}---\u{00a0}"]);
    let chapters = parse_chapters(&manuscript, "---", &vec![(1, 1)]);
    assert_eq!(chapters, vec![chapter(1, "題名", "本文\n")]);
}

#[test]
fn writing_out_titles_and_bodies_gives_back_the_manuscript() {
    let manuscript = lines(&["", " One ", "", "x ", "", "y", "---", "Two", "  ", "z", " --- ", "---", "Three", "w"]);
    let chapters = parse_chapters(&manuscript, "---", &vec![(1, usize::MAX)]);
    let mut text = String::new();
    for chapter in &chapters {
        if !chapter.title.is_empty() {
            text.push_str(&chapter.title);
            text.push('\n');
            text.push_str(&chapter.body);
        }
    }
    assert_eq!(text, "One\nx \n\ny\nTwo\nz\nThree\nw\n");
    assert_eq!(chapters.len(), 4);
}

//! From segmented chapters to chapters ready for publication: the plain path,
//! and the protected path with one unit of work per chapter.
//!
//! The protection program itself is run by the caller. This module decides
//! where its files go, what it is told, what its outcome means, and what is
//! left when the units of work are joined.

use crate::book::segment::ChapterBody;
use crate::book::{Chapter, ChapterView};
use crate::error::Error;
use crate::paths::{extract_file_name, file_name, file_stem, lemma_last_piece_start_at, stem_of};
use crate::text::{decimal, decimal_string, is_digit, lemma_decimal_digits, string_texts, to_chars};
use vstd::prelude::*;
use vstd::string::*;

verus! {

/// A segmented chapter whose body lies in a file, as text.
pub struct ChapterFileView {
    pub index: usize,
    pub title: Seq<char>,
    pub path: Seq<char>,
}

/// A segmented chapter whose body lies in a file.
#[derive(Debug, PartialEq, Eq)]
pub struct ChapterFile {
    /// 1-based position in the manuscript.
    pub index: usize,
    pub title: String,
    /// Where the body lies.
    pub path: String,
}

impl View for ChapterFile {
    type V = ChapterFileView;

    open spec fn view(&self) -> ChapterFileView {
        ChapterFileView { index: self.index, title: self.title@, path: self.path@ }
    }
}

/// The file called `name` in the directory `dir`: a `/` stands between the
/// two unless the directory is empty or ends in one.
pub open spec fn in_dir(dir: Seq<char>, name: Seq<char>) -> Seq<char> {
    if dir.len() == 0 || dir.last() == '/' {
        dir + name
    } else {
        dir + "/"@ + name
    }
}

/// Where the body of the chapter with this number is written: in the working
/// directory, in a file named by the number.
pub open spec fn body_path(work_dir: Seq<char>, index: usize) -> Seq<char> {
    in_dir(work_dir, decimal(index as nat) + ".txt"@)
}

/// Where a chapter that is not protected is read from.
pub open spec fn plain_target(work_dir: Seq<char>, stem: Seq<char>) -> Seq<char> {
    work_dir + "/"@ + stem + ".txt"@
}

/// Where the protected body of a chapter is written.
pub open spec fn encrypted_target(work_dir: Seq<char>, stem: Seq<char>) -> Seq<char> {
    work_dir + "/encrypted/"@ + stem + ".txt"@
}

/// Where the font of a protected chapter is written.
pub open spec fn font_target(work_dir: Seq<char>, stem: Seq<char>) -> Seq<char> {
    work_dir + "/font/"@ + stem + ".woff"@
}

/// `a`, `b`, `c` and `d` in one string.
pub fn joined(a: &str, b: &str, c: &str, d: &str) -> (r: String)
    ensures
        r@ == a@ + b@ + c@ + d@,
{
    let mut r = String::from_str(a);
    r.append(b);
    r.append(c);
    r.append(d);
    r
}

/// Where the body of the chapter with this number is written: a file named
/// by the number, in the working directory.
pub fn chapter_path(work_dir: &str, index: usize) -> (path: String)
    ensures
        path@ == body_path(work_dir@, index),
{
    proof {
        reveal_strlit("/");
    }
    let dir = to_chars(work_dir);
    let name = decimal_string(index);
    let between = if dir.len() == 0 || dir[dir.len() - 1] == '/' {
        ""
    } else {
        "/"
    };
    proof {
        reveal_strlit("");
        assert(work_dir@ + ""@ =~= work_dir@);
        assert(work_dir@ + "/"@ + name@ + ".txt"@ =~= work_dir@ + "/"@ + (name@ + ".txt"@));
        assert(work_dir@ + name@ + ".txt"@ =~= work_dir@ + (name@ + ".txt"@));
    }
    joined(work_dir, between, name.as_str(), ".txt")
}

/// The entry that a segmented chapter gets once its body lies in a file, and
/// the text to write into that file: the entry keeps number and title, and
/// the file is the chapter's body file in the working directory.
pub fn save_chapter(work_dir: &str, chapter: ChapterBody) -> (r: (ChapterFile, String))
    ensures
        r.0@ == (ChapterFileView {
            index: chapter.index,
            title: chapter.title@,
            path: body_path(work_dir@, chapter.index),
        }),
        r.1@ == chapter.body@,
{
    let path = chapter_path(work_dir, chapter.index);
    (ChapterFile { index: chapter.index, title: chapter.title, path }, chapter.body)
}

/// The body of a chapter is written to a file whose stem is the chapter's
/// number, whatever the working directory: what is derived from the stem is
/// derived from the number.
pub proof fn lemma_body_path_stem(work_dir: Seq<char>, index: usize)
    ensures
        file_stem(body_path(work_dir, index)) == Some(decimal(index as nat)),
{
    reveal_strlit("/");
    reveal_strlit(".txt");
    let number = decimal(index as nat);
    lemma_decimal_digits(index as nat);
    let path = body_path(work_dir, index);
    let name = number + ".txt"@;
    let k = path.len() - name.len();
    assert(k > 0 ==> path[k - 1] == '/');
    assert forall|i: int| k <= i < path.len() implies path[i] != '/' by {
        assert(path[i] == name[i - k]);
        if i < k + number.len() {
            assert(is_digit(number[i - k]));
        } else {
            assert(name[i - k] == ".txt"@[i - k - number.len()]);
        }
    }
    lemma_last_piece_start_at(path, '/', k as int);
    assert(path.skip(k as int) =~= name);
    assert(name[0] == number[0]);
    assert(is_digit(number[0]));
    assert(file_name(path) == Some(name));
    let dot = number.len() + 1;
    assert(name[dot - 1] == '.');
    assert forall|i: int| dot <= i < name.len() implies name[i] != '.' by {
        assert(name[i] == ".txt"@[i - number.len()]);
    }
    lemma_last_piece_start_at(name, '.', dot as int);
    assert(name.take(dot - 1) =~= number);
    assert(stem_of(name) == number);
}

/// Where the working directory is not empty and does not end in `/`, a
/// chapter that is not protected is read from the very file that its body
/// was written to.
pub proof fn lemma_plain_target_is_body_path(work_dir: Seq<char>, index: usize)
    requires
        work_dir.len() > 0,
        work_dir.last() != '/',
    ensures
        plain_chapter(
            ChapterFileView { index, title: Seq::empty(), path: body_path(work_dir, index) },
            work_dir,
        ) is Some,
        plain_chapter(
            ChapterFileView { index, title: Seq::empty(), path: body_path(work_dir, index) },
            work_dir,
        )->Some_0.target_path == body_path(work_dir, index),
{
    lemma_body_path_stem(work_dir, index);
    let number = decimal(index as nat);
    assert(work_dir + "/"@ + number + ".txt"@ =~= work_dir + "/"@ + (number + ".txt"@));
}

/// The chapter that stands for `file` when the book is not protected.
pub open spec fn plain_chapter(file: ChapterFileView, work_dir: Seq<char>) -> Option<ChapterView> {
    match file_stem(file.path) {
        Some(stem) => Some(
            ChapterView {
                index: file.index,
                title: file.title,
                target_path: plain_target(work_dir, stem),
                font_path: None,
                css_url: None,
            },
        ),
        None => None,
    }
}

/// The chapter that stands for `file` when the book is protected.
pub open spec fn protected_chapter(file: ChapterFileView, work_dir: Seq<char>) -> Option<ChapterView> {
    match file_stem(file.path) {
        Some(stem) => Some(
            ChapterView {
                index: file.index,
                title: file.title,
                target_path: encrypted_target(work_dir, stem),
                font_path: Some(font_target(work_dir, stem)),
                css_url: None,
            },
        ),
        None => None,
    }
}

/// The chapter of one file of a book that is not protected.
pub fn plain_chapter_of(file: &ChapterFile, work_dir: &str) -> (r: Result<Chapter, Error>)
    ensures
        match plain_chapter(file@, work_dir@) {
            Some(c) => r is Ok && r->Ok_0@ == c,
            None => r == Err::<Chapter, Error>(Error::InvalidPath),
        },
{
    match extract_file_name(file.path.as_str()) {
        Ok(stem) => {
            let target = joined(work_dir, "/", stem.as_str(), ".txt");
            Ok(Chapter::new(file.index, file.title.clone(), target, None))
        },
        Err(_) => Err(Error::InvalidPath),
    }
}

/// The first file, from `from` on, whose location names no file.
pub open spec fn first_without_stem(files: Seq<ChapterFile>, from: int) -> Option<int>
    decreases files.len() - from,
{
    if from < 0 || from >= files.len() {
        None
    } else if file_stem(files[from]@.path) is None {
        Some(from)
    } else {
        first_without_stem(files, from + 1)
    }
}

/// Maps every segmented chapter to a chapter that is not protected: same
/// number, same title, in the same order, without font and without
/// stylesheet. Fails when the location of a chapter names no file.
pub fn no_encrypt_chapters(files: &Vec<ChapterFile>, work_dir: &str) -> (r: Result<Vec<Chapter>, Error>)
    ensures
        match r {
            Ok(chapters) => {
                &&& chapters.len() == files.len()
                &&& forall|i: int|
                    0 <= i < files.len() ==> plain_chapter(files[i]@, work_dir@) == Some(
                        (#[trigger] chapters[i])@,
                    )
            },
            Err(e) => e == Error::InvalidPath && first_without_stem(files@, 0) is Some,
        },
        r is Ok <==> first_without_stem(files@, 0) is None,
{
    let mut chapters: Vec<Chapter> = Vec::new();
    let mut i: usize = 0;
    while i < files.len()
        invariant
            i <= files.len(),
            chapters.len() == i,
            first_without_stem(files@, 0) == first_without_stem(files@, i as int),
            forall|k: int|
                0 <= k < i ==> plain_chapter(files[k]@, work_dir@) == Some((#[trigger] chapters[k])@),
        decreases files.len() - i,
    {
        match plain_chapter_of(&files[i], work_dir) {
            Ok(chapter) => {
                chapters.push(chapter);
            },
            Err(e) => {
                return Err(e);
            },
        }
        i += 1;
    }
    Ok(chapters)
}

/// One unit of work of the protection step: the body to read and the chapter
/// that results.
#[derive(Debug, PartialEq, Eq)]
pub struct EncryptionJob {
    /// Where the plain body lies.
    pub source: String,
    /// The chapter that the unit produces when the step succeeds.
    pub chapter: Chapter,
}

/// Plans the unit of work for one chapter: the protected body and the font
/// are written under names derived from the stem of the plain body's file.
pub fn plan_chapter(file: &ChapterFile, work_dir: &str) -> (r: Result<EncryptionJob, Error>)
    ensures
        match protected_chapter(file@, work_dir@) {
            Some(c) => r is Ok && r->Ok_0.chapter@ == c && r->Ok_0.source@ == file@.path,
            None => r == Err::<EncryptionJob, Error>(Error::InvalidPath),
        },
{
    match extract_file_name(file.path.as_str()) {
        Ok(stem) => {
            let target = joined(work_dir, "/encrypted/", stem.as_str(), ".txt");
            let font = joined(work_dir, "/font/", stem.as_str(), ".woff");
            Ok(
                EncryptionJob {
                    source: file.path.clone(),
                    chapter: Chapter::new(file.index, file.title.clone(), target, Some(font)),
                },
            )
        },
        Err(_) => Err(Error::InvalidPath),
    }
}

/// What the protection program is told: the plain body after `-f`, the
/// protected body after `-s`, the font after `-t`.
pub open spec fn capability_arguments(source: Seq<char>, chapter: ChapterView) -> Option<Seq<Seq<char>>> {
    match chapter.font_path {
        Some(font) => Some(seq!["-f"@, source, "-s"@, chapter.target_path, "-t"@, font]),
        None => None,
    }
}

/// The arguments with which the protection program is run for one chapter.
/// A chapter without font cannot be protected.
pub fn process_chapter_arguments(source: &str, chapter: &Chapter) -> (r: Result<Vec<String>, Error>)
    ensures
        match capability_arguments(source@, chapter@) {
            Some(args) => r is Ok && string_texts(r->Ok_0@) == args,
            None => r == Err::<Vec<String>, Error>(Error::MissingFontPath { index: chapter@.index }),
        },
{
    match chapter.font_path() {
        Some(font) => {
            let mut args: Vec<String> = Vec::new();
            args.push(String::from_str("-f"));
            args.push(String::from_str(source));
            args.push(String::from_str("-s"));
            args.push(String::from_str(chapter.target_path()));
            args.push(String::from_str("-t"));
            args.push(String::from_str(font));
            assert(string_texts(args@) =~= capability_arguments(source@, chapter@)->Some_0);
            Ok(args)
        },
        None => Err(Error::MissingFontPath { index: chapter.index() }),
    }
}

/// What the outcome of the protection program means for one chapter: a run
/// that did not exit with success fails the chapter, named by its title, and
/// hands on what the program wrote to its error stream.
pub fn process_chapter_outcome(chapter: Chapter, success: bool, diagnostic: &str) -> (r: Result<
    Chapter,
    Error,
>)
    ensures
        match r {
            Ok(c) => success && c == chapter,
            Err(e) => !success && match e {
                Error::CapabilityFailure { title, diagnostic: d } => title@ == chapter@.title && d@
                    == diagnostic@,
                _ => false,
            },
        },
{
    if success {
        Ok(chapter)
    } else {
        Err(
            Error::CapabilityFailure {
                title: String::from_str(chapter.title()),
                diagnostic: String::from_str(diagnostic),
            },
        )
    }
}

/// The position of the first failure among the outcomes from `from` on.
pub open spec fn first_failure(outcomes: Seq<Result<Chapter, Error>>, from: int) -> Option<int>
    decreases outcomes.len() - from,
{
    if from < 0 || from >= outcomes.len() {
        None
    } else if outcomes[from] is Err {
        Some(from)
    } else {
        first_failure(outcomes, from + 1)
    }
}

/// Joins the units of work in the order in which they were dispatched.
///
/// It is all or nothing: where every unit succeeded, the chapters come back
/// in dispatch order; where one failed, the failure of the first such unit
/// is all that comes back.
pub fn join_chapters(outcomes: Vec<Result<Chapter, Error>>) -> (r: Result<Vec<Chapter>, Error>)
    ensures
        match first_failure(outcomes@, 0) {
            Some(i) => r is Err && r->Err_0 == outcomes[i]->Err_0,
            None => r is Ok && r->Ok_0.len() == outcomes.len() && forall|i: int|
                0 <= i < outcomes.len() ==> outcomes[i] == Ok::<Chapter, Error>(#[trigger] r->Ok_0[i]),
        },
{
    let mut chapters: Vec<Chapter> = Vec::new();
    let ghost all = outcomes@;
    for outcome in it: outcomes
        invariant
            it.seq() == all,
            chapters.len() == it.index(),
            first_failure(all, 0) == first_failure(all, it.index() as int),
            forall|k: int|
                0 <= k < it.index() ==> all[k] == Ok::<Chapter, Error>(#[trigger] chapters[k]),
    {
        match outcome {
            Ok(chapter) => {
                chapters.push(chapter);
            },
            Err(e) => {
                return Err(e);
            },
        }
    }
    Ok(chapters)
}

} // verus!

//! Books: chapter selection, segmentation, encryption planning, asset
//! publication and scheduling.

pub mod commit;
pub mod encrypt;
pub mod list;
pub mod prompt;
pub mod ranges;
pub mod schedule;
pub mod segment;
pub mod segment_laws;

use vstd::prelude::*;
use vstd::string::*;

verus! {

/// Where the protection program is found, relative to the working directory.
pub const EXECUTABLE_FILE: &'static str = "encryptor/encryptor";

/// The file that holds the settings of every book.
pub const CONFIG_FILE: &'static str = "book.json";

/// The directory that holds one chapter list per book.
pub const CHAPTER_DIR: &'static str = "chapters";

/// The directory for the files of one run.
pub const WORK_DIR: &'static str = "temp";

/// The text of an optional string.
pub open spec fn opt_text(s: Option<String>) -> Option<Seq<char>> {
    match s {
        Some(t) => Some(t@),
        None => None,
    }
}

/// The settings of a book as text.
pub struct ConfigView {
    pub book_id: Seq<char>,
    pub forum_id: Seq<char>,
    pub encrypt: bool,
    pub chapter_separator: Seq<char>,
    pub chapter_list: Seq<char>,
}

/// The settings of a book.
#[derive(Debug, PartialEq, Eq)]
pub struct Config {
    book_id: String,
    forum_id: String,
    encrypt: bool,
    chapter_separator: String,
    chapter_list: String,
}

impl View for Config {
    type V = ConfigView;

    closed spec fn view(&self) -> ConfigView {
        ConfigView {
            book_id: self.book_id@,
            forum_id: self.forum_id@,
            encrypt: self.encrypt,
            chapter_separator: self.chapter_separator@,
            chapter_list: self.chapter_list@,
        }
    }
}

/// Whether an answer means yes: `y`, in either case.
pub open spec fn means_yes(answer: Seq<char>) -> bool {
    answer == seq!['y'] || answer == seq!['Y']
}

/// Where the chapter list of a book is kept: in the chapter directory, under
/// the book's identifier.
pub open spec fn chapter_list_of(book_id: Seq<char>) -> Seq<char> {
    CHAPTER_DIR@ + seq!['/'] + book_id
}

/// Whether an answer means yes.
pub fn is_yes(answer: &str) -> (r: bool)
    ensures
        r == means_yes(answer@),
{
    proof {
        reveal_strlit("y");
        reveal_strlit("Y");
        assert("y"@ =~= seq!['y']);
        assert("Y"@ =~= seq!['Y']);
    }
    crate::text::same_text(answer, "y") || crate::text::same_text(answer, "Y")
}

impl Config {
    /// The settings of a book from the answers of its owner: the book's
    /// identifier, the forum's, whether chapters are to be protected, and the
    /// line that separates chapters. The chapter list is kept under the
    /// book's identifier.
    pub fn build(book_id: String, forum_id: String, encrypt: &str, chapter_separator: String) -> (config:
        Config)
        ensures
            config@ == (ConfigView {
                book_id: book_id@,
                forum_id: forum_id@,
                encrypt: means_yes(encrypt@),
                chapter_separator: chapter_separator@,
                chapter_list: chapter_list_of(book_id@),
            }),
    {
        proof {
            reveal_strlit("/");
            assert("/"@ =~= seq!['/']);
        }
        let mut chapter_list = String::from_str(CHAPTER_DIR);
        chapter_list.append("/");
        chapter_list.append(book_id.as_str());
        Config { book_id, forum_id, encrypt: is_yes(encrypt), chapter_separator, chapter_list }
    }

    /// The settings of a book from its five parts, as they were stored.
    pub fn from_parts(
        book_id: String,
        forum_id: String,
        encrypt: bool,
        chapter_separator: String,
        chapter_list: String,
    ) -> (config: Config)
        ensures
            config@ == (ConfigView {
                book_id: book_id@,
                forum_id: forum_id@,
                encrypt,
                chapter_separator: chapter_separator@,
                chapter_list: chapter_list@,
            }),
    {
        Config { book_id, forum_id, encrypt, chapter_separator, chapter_list }
    }

    pub fn book_id(&self) -> (r: &str)
        ensures
            r@ == self@.book_id,
    {
        self.book_id.as_str()
    }

    pub fn forum_id(&self) -> (r: &str)
        ensures
            r@ == self@.forum_id,
    {
        self.forum_id.as_str()
    }

    pub fn chapter_list(&self) -> (r: &str)
        ensures
            r@ == self@.chapter_list,
    {
        self.chapter_list.as_str()
    }

    pub fn chapter_separator(&self) -> (r: &str)
        ensures
            r@ == self@.chapter_separator,
    {
        self.chapter_separator.as_str()
    }

    /// Whether the chapters of the book are to be protected.
    pub fn encrypt(&self) -> (r: bool)
        ensures
            r == self@.encrypt,
    {
        self.encrypt
    }
}

/// A chapter as text.
pub struct ChapterView {
    pub index: usize,
    pub title: Seq<char>,
    pub target_path: Seq<char>,
    pub font_path: Option<Seq<char>>,
    pub css_url: Option<Seq<char>>,
}

/// A chapter on its way to publication.
#[derive(Debug, PartialEq, Eq)]
pub struct Chapter {
    index: usize,
    title: String,
    target_path: String,
    font_path: Option<String>,
    css_url: Option<String>,
}

impl View for Chapter {
    type V = ChapterView;

    closed spec fn view(&self) -> ChapterView {
        ChapterView {
            index: self.index,
            title: self.title@,
            target_path: self.target_path@,
            font_path: opt_text(self.font_path),
            css_url: opt_text(self.css_url),
        }
    }
}

impl Chapter {
    /// A chapter that has not been published: it has no stylesheet yet.
    pub fn new(index: usize, title: String, target_path: String, font_path: Option<String>) -> (chapter:
        Chapter)
        ensures
            chapter@ == (ChapterView {
                index,
                title: title@,
                target_path: target_path@,
                font_path: opt_text(font_path),
                css_url: None,
            }),
    {
        Chapter { index, title, target_path, font_path, css_url: None }
    }

    /// Records where the chapter's stylesheet was published.
    pub fn set_css_url(&mut self, css_url: &str)
        ensures
            final(self)@ == (ChapterView { css_url: Some(css_url@), ..old(self)@ }),
    {
        self.css_url = Some(String::from_str(css_url));
    }

    pub fn title(&self) -> (r: &str)
        ensures
            r@ == self@.title,
    {
        self.title.as_str()
    }

    pub fn target_path(&self) -> (r: &str)
        ensures
            r@ == self@.target_path,
    {
        self.target_path.as_str()
    }

    /// Where the chapter's font file lies, if the chapter is protected.
    pub fn font_path(&self) -> (r: Option<&str>)
        ensures
            match r {
                Some(s) => self@.font_path == Some(s@),
                None => self@.font_path is None,
            },
    {
        match &self.font_path {
            Some(s) => Some(s.as_str()),
            None => None,
        }
    }

    /// Where the chapter's stylesheet was published, once it has been.
    pub fn css_url(&self) -> (r: Option<&str>)
        ensures
            match r {
                Some(s) => self@.css_url == Some(s@),
                None => self@.css_url is None,
            },
    {
        match &self.css_url {
            Some(s) => Some(s.as_str()),
            None => None,
        }
    }

    /// The chapter's 1-based position in the manuscript.
    pub fn index(&self) -> (r: usize)
        ensures
            r == self@.index,
    {
        self.index
    }

    /// Whether the chapter is protected: it is once its stylesheet has been
    /// published.
    pub fn encrypt(&self) -> (r: bool)
        ensures
            r == (self@.css_url is Some),
    {
        self.css_url.is_some()
    }
}

} // verus!

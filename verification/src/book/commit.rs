//! Publishing the fonts and stylesheets of protected chapters through a
//! commit store and a content delivery network.
//!
//! Publication runs in two phases. The fonts are committed first; the
//! identifier of that commit is the version under which the network serves
//! them, and every stylesheet names its font by it. The stylesheets are
//! committed second; the identifier of that commit is the version of the
//! address that each chapter gets. Only then are the commits pushed.
//!
//! The commit store is worked by the caller. This module keeps the phase,
//! says which files go where and what they hold, which commands the store is
//! given, and what its answers mean.

use crate::book::{Chapter, ChapterView};
use crate::error::Error;
use crate::text::{decimal, decimal_string, string_texts};
use vstd::prelude::*;
use vstd::string::*;

verus! {

/// The working tree of the commit store.
pub const REPO_DIR: &'static str = "commit";

/// The message of every commit.
pub const COMMIT_MESSAGE: &'static str = "Add font and CSS file";

/// Who owns the remote repository, what it is called, and an optional
/// credential.
#[derive(Debug, PartialEq, Eq)]
pub struct CommitConfig {
    pub username: String,
    pub repository: String,
    pub password: Option<String>,
}

/// The address of the remote repository.
pub open spec fn remote_url(username: Seq<char>, repository: Seq<char>) -> Seq<char> {
    "git@github.com:"@ + username + "/"@ + repository + ".git"@
}

/// The address under which the network serves the file at `path` as of the
/// commit `commit_id`.
pub open spec fn cdn_url(
    username: Seq<char>,
    repository: Seq<char>,
    commit_id: Seq<char>,
    path: Seq<char>,
) -> Seq<char> {
    "https://cdn.jsdelivr.net/gh/"@ + username + "/"@ + repository + "@"@ + commit_id + "/"@ + path
}

/// The path of a chapter's file within the repository: in the directory of
/// the book, named by the chapter's number, with the given extension.
pub open spec fn asset_path(book: Seq<char>, index: usize, extension: Seq<char>) -> Seq<char> {
    book + "/"@ + decimal(index as nat) + extension
}

/// The stylesheet of one chapter: a single font face, named by the chapter's
/// number, loaded from `woff_url`.
pub open spec fn css_text(font_name: usize, woff_url: Seq<char>) -> Seq<char> {
    "@font-face {\nfont-family: '"@ + decimal(font_name as nat) + "';\nsrc: url('"@ + woff_url
        + "') format('woff');\nfont-weight: normal;\nfont-style: normal;\nfont-display: swap;\n}"@
}

/// The address of a file as of a commit.
pub fn cdn_address(username: &str, repository: &str, commit_id: &str, path: &str) -> (url: String)
    ensures
        url@ == cdn_url(username@, repository@, commit_id@, path@),
{
    let mut url = String::from_str("https://cdn.jsdelivr.net/gh/");
    url.append(username);
    url.append("/");
    url.append(repository);
    url.append("@");
    url.append(commit_id);
    url.append("/");
    url.append(path);
    url
}

/// The path of a chapter's file within the repository.
pub fn asset_path_of(book: &str, index: usize, extension: &str) -> (path: String)
    ensures
        path@ == asset_path(book@, index, extension@),
{
    let mut path = String::from_str(book);
    path.append("/");
    path.append(decimal_string(index).as_str());
    path.append(extension);
    path
}

/// The content of the stylesheet of the chapter numbered `font_name`.
pub fn create_css(woff_url: &str, font_name: usize) -> (css: String)
    ensures
        css@ == css_text(font_name, woff_url@),
{
    let mut css = String::from_str("@font-face {\nfont-family: '");
    css.append(decimal_string(font_name).as_str());
    css.append("';\nsrc: url('");
    css.append(woff_url);
    css.append("') format('woff');\nfont-weight: normal;\nfont-style: normal;\nfont-display: swap;\n}");
    css
}

/// The commands that set up the working tree: none where it exists already;
/// otherwise one that creates it and one that links it to the remote.
pub open spec fn setup_commands(config: CommitConfig, exists: bool) -> Seq<Seq<Seq<char>>> {
    if exists {
        Seq::empty()
    } else {
        seq![
            seq!["init"@],
            seq!["remote"@, "add"@, "origin"@, remote_url(config.username@, config.repository@)],
        ]
    }
}

/// The texts of a list of commands.
pub open spec fn command_texts(commands: Seq<Vec<String>>) -> Seq<Seq<Seq<char>>> {
    commands.map_values(|c: Vec<String>| string_texts(c@))
}

/// The commands that make sure that the working tree exists and is linked to
/// the remote, given whether it exists.
pub fn initialize_git_repo(config: &CommitConfig, exists: bool) -> (commands: Vec<Vec<String>>)
    ensures
        command_texts(commands@) == setup_commands(*config, exists),
{
    let mut commands: Vec<Vec<String>> = Vec::new();
    if !exists {
        let mut init: Vec<String> = Vec::new();
        init.push(String::from_str("init"));
        let mut url = String::from_str("git@github.com:");
        url.append(config.username.as_str());
        url.append("/");
        url.append(config.repository.as_str());
        url.append(".git");
        let mut remote: Vec<String> = Vec::new();
        remote.push(String::from_str("remote"));
        remote.push(String::from_str("add"));
        remote.push(String::from_str("origin"));
        remote.push(url);
        assert(string_texts(init@) =~= seq!["init"@]);
        assert(string_texts(remote@) =~= seq![
            "remote"@,
            "add"@,
            "origin"@,
            remote_url(config.username@, config.repository@),
        ]);
        commands.push(init);
        commands.push(remote);
    }
    assert(command_texts(commands@) =~= setup_commands(*config, exists));
    commands
}

/// The two commands of a commit: one that stages the files, one that commits
/// them under the fixed message.
pub open spec fn commit_commands(files: Seq<Seq<char>>) -> Seq<Seq<Seq<char>>> {
    seq![seq!["add"@] + files, seq!["commit"@, "-m"@, COMMIT_MESSAGE@]]
}

/// The commands that stage `files` and commit them in one commit.
pub fn git_commit(files: &Vec<String>) -> (commands: Vec<Vec<String>>)
    ensures
        command_texts(commands@) == commit_commands(string_texts(files@)),
{
    let mut add: Vec<String> = Vec::new();
    add.push(String::from_str("add"));
    let mut i: usize = 0;
    while i < files.len()
        invariant
            i <= files.len(),
            string_texts(add@) == seq!["add"@] + string_texts(files@).take(i as int),
        decreases files.len() - i,
    {
        let file = files[i].clone();
        assert(string_texts(add@.push(file)) =~= string_texts(add@).push(file@));
        add.push(file);
        i += 1;
        assert(string_texts(add@) =~= seq!["add"@] + string_texts(files@).take(i as int));
    }
    assert(string_texts(files@).take(files.len() as int) =~= string_texts(files@));
    let mut commit: Vec<String> = Vec::new();
    commit.push(String::from_str("commit"));
    commit.push(String::from_str("-m"));
    commit.push(String::from_str(COMMIT_MESSAGE));
    assert(string_texts(commit@) =~= seq!["commit"@, "-m"@, COMMIT_MESSAGE@]);
    let mut commands: Vec<Vec<String>> = Vec::new();
    commands.push(add);
    commands.push(commit);
    assert(command_texts(commands@) =~= commit_commands(string_texts(files@)));
    commands
}

/// The command that pushes the current branch to the remote.
pub fn git_push() -> (command: Vec<String>)
    ensures
        string_texts(command@) == seq!["push"@, "origin"@, "HEAD"@],
{
    let mut command: Vec<String> = Vec::new();
    command.push(String::from_str("push"));
    command.push(String::from_str("origin"));
    command.push(String::from_str("HEAD"));
    assert(string_texts(command@) =~= seq!["push"@, "origin"@, "HEAD"@]);
    command
}

/// The command that asks the store for the identifier of the last commit.
pub fn commit_hash_command() -> (command: Vec<String>)
    ensures
        string_texts(command@) == seq!["log"@, "-n"@, "1"@, "--pretty=format:%H"@],
{
    let mut command: Vec<String> = Vec::new();
    command.push(String::from_str("log"));
    command.push(String::from_str("-n"));
    command.push(String::from_str("1"));
    command.push(String::from_str("--pretty=format:%H"));
    assert(string_texts(command@) =~= seq!["log"@, "-n"@, "1"@, "--pretty=format:%H"@]);
    command
}

/// Reads the identifier of the last commit from what the store printed. An
/// empty answer is a failure.
pub fn get_commit_hash(output: &str) -> (r: Result<String, Error>)
    ensures
        output@.len() == 0 ==> r == Err::<String, Error>(Error::CommitHashUnavailable),
        output@.len() > 0 ==> r is Ok && r->Ok_0@ == output@,
{
    if output.is_empty() {
        Err(Error::CommitHashUnavailable)
    } else {
        Ok(String::from_str(output))
    }
}

/// What the outcome of a command of the commit store means: a command that
/// did not succeed is fatal.
pub fn store_outcome(success: bool) -> (r: Result<(), Error>)
    ensures
        r is Ok <==> success,
        !success ==> r == Err::<(), Error>(Error::CommitStoreFailure),
{
    if success {
        Ok(())
    } else {
        Err(Error::CommitStoreFailure)
    }
}

/// What the answers of the store to one commit amount to: the identifier of
/// the commit, if the files were staged, the commit was made, and the
/// identifier that was read back is not empty.
pub open spec fn commit_result(staged: bool, committed: bool, output: Seq<char>) -> Result<
    Seq<char>,
    Error,
> {
    if !staged || !committed {
        Err(Error::CommitStoreFailure)
    } else if output.len() == 0 {
        Err(Error::CommitHashUnavailable)
    } else {
        Ok(output)
    }
}

/// Judges the answers of the store to the commands of one commit: whether
/// staging succeeded, whether the commit succeeded, and what the store
/// printed as the identifier of the last commit.
pub fn commit_outcome(staged: bool, committed: bool, output: &str) -> (r: Result<String, Error>)
    ensures
        match (r, commit_result(staged, committed, output@)) {
            (Ok(id), Ok(text)) => id@ == text,
            (Err(e), Err(f)) => e == f,
            _ => false,
        },
{
    match store_outcome(staged) {
        Ok(()) => {},
        Err(e) => {
            return Err(e);
        },
    }
    match store_outcome(committed) {
        Ok(()) => {},
        Err(e) => {
            return Err(e);
        },
    }
    get_commit_hash(output)
}

/// How far publication has come, as text.
pub enum Phase {
    Uninitialized,
    FontsCommitted { font_commit: Seq<char> },
    StylesCommitted { font_commit: Seq<char>, css_commit: Seq<char> },
    Pushed { font_commit: Seq<char>, css_commit: Seq<char> },
}

/// The phase after the answers of the store to the font commit: the fonts
/// are committed if nothing was committed before and the commit came off;
/// otherwise nothing changes.
pub open spec fn after_font_commit(phase: Phase, staged: bool, committed: bool, output: Seq<char>) -> Phase {
    match (phase, commit_result(staged, committed, output)) {
        (Phase::Uninitialized, Ok(id)) => Phase::FontsCommitted { font_commit: id },
        _ => phase,
    }
}

/// The phase after the answers of the store to the stylesheet commit: the
/// stylesheets are committed if the fonts were and the commit came off;
/// otherwise nothing changes.
pub open spec fn after_style_commit(phase: Phase, staged: bool, committed: bool, output: Seq<char>) -> Phase {
    match (phase, commit_result(staged, committed, output)) {
        (Phase::FontsCommitted { font_commit }, Ok(id)) => Phase::StylesCommitted {
            font_commit,
            css_commit: id,
        },
        _ => phase,
    }
}

/// The phase after the push: the commits are pushed if the stylesheets were
/// committed and the push succeeded; otherwise nothing changes.
pub open spec fn after_push(phase: Phase, success: bool) -> Phase {
    match phase {
        Phase::StylesCommitted { font_commit, css_commit } => if success {
            Phase::Pushed { font_commit, css_commit }
        } else {
            phase
        },
        _ => phase,
    }
}

/// The identifier of the stylesheet commit in a phase that has one.
pub open spec fn css_commit_of(phase: Phase) -> Option<Seq<char>> {
    match phase {
        Phase::StylesCommitted { font_commit, css_commit } => Some(css_commit),
        Phase::Pushed { font_commit, css_commit } => Some(css_commit),
        _ => None,
    }
}

/// Publication is all or nothing. After the font commit and the stylesheet
/// commit, in this order, a stylesheet commit is on record only if both
/// stagings and both commits succeeded and both identifiers were not empty;
/// it then holds exactly the two identifiers. The push is on record only if
/// it succeeded after that.
pub proof fn lemma_no_partial_publication(
    fonts_staged: bool,
    fonts_committed: bool,
    font_commit: Seq<char>,
    styles_staged: bool,
    styles_committed: bool,
    css_commit: Seq<char>,
    pushed: bool,
)
    ensures
        ({
            let first = after_font_commit(Phase::Uninitialized, fonts_staged, fonts_committed, font_commit);
            let second = after_style_commit(first, styles_staged, styles_committed, css_commit);
            let third = after_push(second, pushed);
            let all_came_off = fonts_staged && fonts_committed && font_commit.len() > 0 && styles_staged
                && styles_committed && css_commit.len() > 0;
            &&& css_commit_of(second) is Some <==> all_came_off
            &&& all_came_off ==> second == (Phase::StylesCommitted { font_commit, css_commit })
            &&& third is Pushed <==> all_came_off && pushed
            &&& !all_came_off ==> css_commit_of(third) is None
        }),
{
}

/// How far publication has come.
#[derive(Debug, PartialEq, Eq)]
pub enum PublishState {
    /// Nothing has been committed.
    Uninitialized,
    /// The fonts have been committed.
    FontsCommitted { font_commit: String },
    /// The stylesheets have been committed as well.
    StylesCommitted { font_commit: String, css_commit: String },
    /// Both commits have been pushed.
    Pushed { font_commit: String, css_commit: String },
}

impl View for PublishState {
    type V = Phase;

    open spec fn view(&self) -> Phase {
        match self {
            PublishState::Uninitialized => Phase::Uninitialized,
            PublishState::FontsCommitted { font_commit } => Phase::FontsCommitted {
                font_commit: font_commit@,
            },
            PublishState::StylesCommitted { font_commit, css_commit } => Phase::StylesCommitted {
                font_commit: font_commit@,
                css_commit: css_commit@,
            },
            PublishState::Pushed { font_commit, css_commit } => Phase::Pushed {
                font_commit: font_commit@,
                css_commit: css_commit@,
            },
        }
    }
}

/// A font file to copy into the working tree, as text.
pub struct FontCopyView {
    pub source: Seq<char>,
    pub destination: Seq<char>,
    pub staged: Seq<char>,
}

/// A font file to copy into the working tree.
#[derive(Debug, PartialEq, Eq)]
pub struct FontCopy {
    /// Where the font lies.
    pub source: String,
    /// Where it goes, from the directory in which the program runs.
    pub destination: String,
    /// The same place as the commit store names it.
    pub staged: String,
}

impl View for FontCopy {
    type V = FontCopyView;

    open spec fn view(&self) -> FontCopyView {
        FontCopyView { source: self.source@, destination: self.destination@, staged: self.staged@ }
    }
}

/// A stylesheet to write into the working tree, as text.
pub struct StylesheetView {
    pub path: Seq<char>,
    pub staged: Seq<char>,
    pub content: Seq<char>,
}

/// A stylesheet to write into the working tree.
#[derive(Debug, PartialEq, Eq)]
pub struct Stylesheet {
    /// Where it goes, from the directory in which the program runs.
    pub path: String,
    /// The same place as the commit store names it.
    pub staged: String,
    pub content: String,
}

impl View for Stylesheet {
    type V = StylesheetView;

    open spec fn view(&self) -> StylesheetView {
        StylesheetView { path: self.path@, staged: self.staged@, content: self.content@ }
    }
}

/// A path within the working tree, from the directory in which the program
/// runs.
pub open spec fn in_tree(path: Seq<char>) -> Seq<char> {
    REPO_DIR@ + "/"@ + path
}

/// The copy that brings the font of `chapter` into the working tree.
pub open spec fn font_copy_of(book: Seq<char>, chapter: ChapterView) -> Option<FontCopyView> {
    match chapter.font_path {
        Some(font) => Some(
            FontCopyView {
                source: font,
                destination: in_tree(asset_path(book, chapter.index, ".woff"@)),
                staged: asset_path(book, chapter.index, ".woff"@),
            },
        ),
        None => None,
    }
}

/// The stylesheet of `chapter`, whose font was committed as `font_commit`.
pub open spec fn stylesheet_of(
    username: Seq<char>,
    repository: Seq<char>,
    book: Seq<char>,
    font_commit: Seq<char>,
    chapter: ChapterView,
) -> StylesheetView {
    StylesheetView {
        path: in_tree(asset_path(book, chapter.index, ".css"@)),
        staged: asset_path(book, chapter.index, ".css"@),
        content: css_text(
            chapter.index,
            cdn_url(username, repository, font_commit, asset_path(book, chapter.index, ".woff"@)),
        ),
    }
}

/// The address of the stylesheet of the chapter numbered `index`, as of the
/// commit `css_commit`.
pub open spec fn css_url_of(
    username: Seq<char>,
    repository: Seq<char>,
    book: Seq<char>,
    css_commit: Seq<char>,
    index: usize,
) -> Seq<char> {
    cdn_url(username, repository, css_commit, asset_path(book, index, ".min.css"@))
}

/// The first chapter, from `from` on, that has no font.
pub open spec fn first_without_font(chapters: Seq<Chapter>, from: int) -> Option<int>
    decreases chapters.len() - from,
{
    if from < 0 || from >= chapters.len() {
        None
    } else if chapters[from]@.font_path is None {
        Some(from)
    } else {
        first_without_font(chapters, from + 1)
    }
}

/// A path within the working tree.
fn tree_path(path: &str) -> (r: String)
    ensures
        r@ == in_tree(path@),
{
    let mut r = String::from_str(REPO_DIR);
    r.append("/");
    r.append(path);
    r
}

/// The publication of the assets of one book.
pub struct Publisher {
    config: CommitConfig,
    book: String,
    state: PublishState,
}

impl Publisher {
    /// How far publication has come.
    pub closed spec fn phase(&self) -> Phase {
        self.state@
    }

    /// The owner of the remote repository.
    pub closed spec fn username(&self) -> Seq<char> {
        self.config.username@
    }

    /// The name of the remote repository.
    pub closed spec fn repository(&self) -> Seq<char> {
        self.config.repository@
    }

    /// The identifier of the book.
    pub closed spec fn book(&self) -> Seq<char> {
        self.book@
    }

    /// Whether `other` publishes the same book to the same repository.
    pub open spec fn same_target(&self, other: &Publisher) -> bool {
        &&& self.username() == other.username()
        &&& self.repository() == other.repository()
        &&& self.book() == other.book()
    }

    /// A publication that has committed nothing.
    pub fn new(config: CommitConfig, book: &str) -> (p: Publisher)
        ensures
            p.phase() == Phase::Uninitialized,
            p.username() == config.username@,
            p.repository() == config.repository@,
            p.book() == book@,
    {
        Publisher { config, book: String::from_str(book), state: PublishState::Uninitialized }
    }

    /// The settings of the remote repository.
    pub fn config(&self) -> (config: &CommitConfig)
        ensures
            config.username@ == self.username(),
            config.repository@ == self.repository(),
    {
        &self.config
    }

    /// The identifier of the book.
    pub fn book_id(&self) -> (book: &str)
        ensures
            book@ == self.book(),
    {
        self.book.as_str()
    }

    /// The directory of the book within the working tree, which is made
    /// before the first phase and removed after the last.
    pub fn book_dir(&self) -> (dir: String)
        ensures
            dir@ == in_tree(self.book()),
    {
        tree_path(self.book.as_str())
    }

    /// First phase, before the commit: the fonts to copy into the working
    /// tree, one per chapter, in the order of the chapters. A chapter without
    /// font fails the whole phase.
    pub fn font_copies(&self, chapters: &Vec<Chapter>) -> (r: Result<Vec<FontCopy>, Error>)
        ensures
            match first_without_font(chapters@, 0) {
                Some(i) => r == Err::<Vec<FontCopy>, Error>(
                    Error::MissingFontPath { index: chapters[i]@.index },
                ),
                None => r is Ok && r->Ok_0.len() == chapters.len() && forall|i: int|
                    0 <= i < chapters.len() ==> font_copy_of(self.book(), chapters[i]@) == Some(
                        (#[trigger] r->Ok_0[i])@,
                    ),
            },
    {
        let mut copies: Vec<FontCopy> = Vec::new();
        let mut i: usize = 0;
        while i < chapters.len()
            invariant
                i <= chapters.len(),
                copies.len() == i,
                first_without_font(chapters@, 0) == first_without_font(chapters@, i as int),
                forall|k: int|
                    0 <= k < i ==> font_copy_of(self.book(), chapters[k]@) == Some(
                        (#[trigger] copies[k])@,
                    ),
            decreases chapters.len() - i,
        {
            let chapter = &chapters[i];
            match chapter.font_path() {
                Some(font) => {
                    let staged = asset_path_of(self.book.as_str(), chapter.index(), ".woff");
                    copies.push(
                        FontCopy {
                            source: String::from_str(font),
                            destination: tree_path(staged.as_str()),
                            staged,
                        },
                    );
                },
                None => {
                    return Err(Error::MissingFontPath { index: chapter.index() });
                },
            }
            i += 1;
        }
        Ok(copies)
    }

    /// First phase, after the commit: takes the answers of the store to the
    /// font commit, which are whether staging succeeded, whether the commit
    /// succeeded, and what the store printed as the commit's identifier.
    ///
    /// Out of order, or after a command that did not succeed, this fails with
    /// `Error::CommitStoreFailure`; an empty identifier fails with
    /// `Error::CommitHashUnavailable`. A failure leaves the publication as it
    /// was.
    pub fn fonts_committed(&mut self, staged: bool, committed: bool, commit_id: &str) -> (r: Result<
        (),
        Error,
    >)
        ensures
            final(self).same_target(old(self)),
            final(self).phase() == after_font_commit(old(self).phase(), staged, committed, commit_id@),
            match old(self).phase() {
                Phase::Uninitialized => match commit_result(staged, committed, commit_id@) {
                    Ok(id) => r is Ok && final(self).phase() == (Phase::FontsCommitted {
                        font_commit: id,
                    }),
                    Err(e) => r == Err::<(), Error>(e) && final(self).phase() == old(self).phase(),
                },
                _ => r == Err::<(), Error>(Error::CommitStoreFailure) && final(self).phase() == old(
                    self,
                ).phase(),
            },
    {
        match &self.state {
            PublishState::Uninitialized => {},
            _ => {
                return Err(Error::CommitStoreFailure);
            },
        }
        match commit_outcome(staged, committed, commit_id) {
            Ok(font_commit) => {
                self.state = PublishState::FontsCommitted { font_commit };
                Ok(())
            },
            Err(e) => Err(e),
        }
    }

    /// Second phase, before the commit: the stylesheets to write into the
    /// working tree, one per chapter, in the order of the chapters. Each names
    /// its font as of the font commit, so there are none before that commit.
    pub fn stylesheets(&self, chapters: &Vec<Chapter>) -> (r: Result<Vec<Stylesheet>, Error>)
        ensures
            match self.phase() {
                Phase::FontsCommitted { font_commit } => r is Ok && r->Ok_0.len() == chapters.len()
                    && forall|i: int|
                    0 <= i < chapters.len() ==> (#[trigger] r->Ok_0[i])@ == stylesheet_of(
                        self.username(),
                        self.repository(),
                        self.book(),
                        font_commit,
                        chapters[i]@,
                    ),
                _ => r == Err::<Vec<Stylesheet>, Error>(Error::CommitStoreFailure),
            },
    {
        let font_commit = match &self.state {
            PublishState::FontsCommitted { font_commit } => font_commit.as_str(),
            _ => {
                return Err(Error::CommitStoreFailure);
            },
        };
        let mut sheets: Vec<Stylesheet> = Vec::new();
        let mut i: usize = 0;
        while i < chapters.len()
            invariant
                i <= chapters.len(),
                sheets.len() == i,
                self.phase() == (Phase::FontsCommitted { font_commit: font_commit@ }),
                forall|k: int|
                    0 <= k < i ==> (#[trigger] sheets[k])@ == stylesheet_of(
                        self.username(),
                        self.repository(),
                        self.book(),
                        font_commit@,
                        chapters[k]@,
                    ),
            decreases chapters.len() - i,
        {
            let index = chapters[i].index();
            let font = asset_path_of(self.book.as_str(), index, ".woff");
            let url = cdn_address(
                self.config.username.as_str(),
                self.config.repository.as_str(),
                font_commit,
                font.as_str(),
            );
            let staged = asset_path_of(self.book.as_str(), index, ".css");
            sheets.push(
                Stylesheet {
                    path: tree_path(staged.as_str()),
                    staged,
                    content: create_css(url.as_str(), index),
                },
            );
            i += 1;
        }
        Ok(sheets)
    }

    /// Second phase, after the commit: takes the answers of the store to the
    /// stylesheet commit, which are whether staging succeeded, whether the
    /// commit succeeded, and what the store printed as the commit's
    /// identifier.
    ///
    /// Out of order, or after a command that did not succeed, this fails with
    /// `Error::CommitStoreFailure`; an empty identifier fails with
    /// `Error::CommitHashUnavailable`. A failure leaves the publication as it
    /// was.
    pub fn styles_committed(&mut self, staged: bool, committed: bool, commit_id: &str) -> (r: Result<
        (),
        Error,
    >)
        ensures
            final(self).same_target(old(self)),
            final(self).phase() == after_style_commit(old(self).phase(), staged, committed, commit_id@),
            match old(self).phase() {
                Phase::FontsCommitted { font_commit } => match commit_result(
                    staged,
                    committed,
                    commit_id@,
                ) {
                    Ok(id) => r is Ok && final(self).phase() == (Phase::StylesCommitted {
                        font_commit,
                        css_commit: id,
                    }),
                    Err(e) => r == Err::<(), Error>(e) && final(self).phase() == old(self).phase(),
                },
                _ => r == Err::<(), Error>(Error::CommitStoreFailure) && final(self).phase() == old(
                    self,
                ).phase(),
            },
    {
        let font_commit = match &self.state {
            PublishState::FontsCommitted { font_commit } => font_commit.clone(),
            _ => {
                return Err(Error::CommitStoreFailure);
            },
        };
        match commit_outcome(staged, committed, commit_id) {
            Ok(css_commit) => {
                self.state = PublishState::StylesCommitted { font_commit, css_commit };
                Ok(())
            },
            Err(e) => Err(e),
        }
    }

    /// After both phases: takes whether the push succeeded, and records it.
    ///
    /// The result is `Ok` exactly when the stylesheets were committed and the
    /// push succeeded. Before the stylesheets are committed there is nothing
    /// to push; then, and after a push that did not succeed, this fails with
    /// `Error::CommitStoreFailure` and leaves the publication as it was.
    pub fn pushed(&mut self, success: bool) -> (r: Result<(), Error>)
        ensures
            final(self).same_target(old(self)),
            final(self).phase() == after_push(old(self).phase(), success),
            r is Ok <==> success && old(self).phase() is StylesCommitted,
            match old(self).phase() {
                Phase::StylesCommitted { font_commit, css_commit } => if success {
                    final(self).phase() == (Phase::Pushed { font_commit, css_commit })
                } else {
                    r == Err::<(), Error>(Error::CommitStoreFailure) && final(self).phase() == old(
                        self,
                    ).phase()
                },
                _ => r == Err::<(), Error>(Error::CommitStoreFailure) && final(self).phase() == old(
                    self,
                ).phase(),
            },
    {
        match store_outcome(success) {
            Ok(()) => {},
            Err(_) => {
                return Err(Error::CommitStoreFailure);
            },
        }
        let (font_commit, css_commit) = match &self.state {
            PublishState::StylesCommitted { font_commit, css_commit } => (
                font_commit.clone(),
                css_commit.clone(),
            ),
            _ => {
                return Err(Error::CommitStoreFailure);
            },
        };
        self.state = PublishState::Pushed { font_commit, css_commit };
        Ok(())
    }

    /// The identifier of the stylesheet commit, once there is one.
    pub fn css_commit(&self) -> (r: Option<&str>)
        ensures
            match self.phase() {
                Phase::StylesCommitted { font_commit, css_commit } => r is Some && r->Some_0@
                    == css_commit,
                Phase::Pushed { font_commit, css_commit } => r is Some && r->Some_0@ == css_commit,
                _ => r is None,
            },
    {
        match &self.state {
            PublishState::StylesCommitted { font_commit, css_commit } => Some(css_commit.as_str()),
            PublishState::Pushed { font_commit, css_commit } => Some(css_commit.as_str()),
            _ => None,
        }
    }
}

impl Chapter {
    /// Gives every chapter the address of its stylesheet as of the
    /// stylesheet commit of `publisher`.
    ///
    /// Before the stylesheets are committed there is no such address; this
    /// then fails with `Error::CommitStoreFailure` and leaves the chapters as
    /// they were.
    pub fn collect_css_url(publisher: &Publisher, chapters: &mut Vec<Chapter>) -> (r: Result<(), Error>)
        ensures
            match css_commit_of(publisher.phase()) {
                Some(css_commit) => {
                    &&& r is Ok
                    &&& final(chapters).len() == old(chapters).len()
                    &&& forall|i: int|
                        0 <= i < old(chapters).len() ==> (#[trigger] final(chapters)[i])@ == (ChapterView {
                            css_url: Some(
                                css_url_of(
                                    publisher.username(),
                                    publisher.repository(),
                                    publisher.book(),
                                    css_commit,
                                    old(chapters)[i]@.index,
                                ),
                            ),
                            ..old(chapters)[i]@
                        })
                },
                None => r == Err::<(), Error>(Error::CommitStoreFailure) && *final(chapters) == *old(
                    chapters,
                ),
            },
    {
        let css_commit = match publisher.css_commit() {
            Some(id) => id,
            None => {
                return Err(Error::CommitStoreFailure);
            },
        };
        let config = publisher.config();
        let book = publisher.book_id();
        let mut i: usize = 0;
        while i < chapters.len()
            invariant
                i <= chapters.len(),
                chapters.len() == old(chapters).len(),
                css_commit_of(publisher.phase()) == Some(css_commit@),
                config.username@ == publisher.username(),
                config.repository@ == publisher.repository(),
                book@ == publisher.book(),
                forall|k: int|
                    0 <= k < i ==> (#[trigger] chapters[k])@ == (ChapterView {
                        css_url: Some(
                            css_url_of(
                                publisher.username(),
                                publisher.repository(),
                                publisher.book(),
                                css_commit@,
                                old(chapters)[k]@.index,
                            ),
                        ),
                        ..old(chapters)[k]@
                    }),
                forall|k: int| i <= k < chapters.len() ==> chapters[k] == old(chapters)[k],
            decreases chapters.len() - i,
        {
            let path = asset_path_of(book, chapters[i].index(), ".min.css");
            let url = cdn_address(
                config.username.as_str(),
                config.repository.as_str(),
                css_commit,
                path.as_str(),
            );
            chapters[i].set_css_url(url.as_str());
            i += 1;
        }
        Ok(())
    }
}

} // verus!

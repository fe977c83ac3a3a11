use auto_esj::book::commit::{
    asset_path_of, cdn_address, commit_hash_command, commit_outcome, create_css, get_commit_hash, git_commit,
    git_push, initialize_git_repo, store_outcome, CommitConfig, FontCopy, Publisher, Stylesheet,
};
use auto_esj::book::Chapter;
use auto_esj::error::Error;

fn config() -> CommitConfig {
    CommitConfig { username: "alice".to_string(), repository: "fonts".to_string(), password: None }
}

fn chapter(index: usize) -> Chapter {
    Chapter::new(
        index,
        format!("Chapter {}", index),
        format!("temp/encrypted/{}.txt", index),
        Some(format!("temp/font/{}.woff", index)),
    )
}

fn strings(items: &[&str]) -> Vec<String> {
    items.iter().map(|s| s.to_string()).collect()
}

const FONT_COMMIT: &str = "1111111111111111111111111111111111111111";
const CSS_COMMIT: &str = "2222222222222222222222222222222222222222";

#[test]
fn two_phase_publication_of_two_chapters() {
    let mut chapters = vec![chapter(1), chapter(2)];
    let mut publisher = Publisher::new(config(), "book7");

    let copies = publisher.font_copies(&chapters).unwrap();
    assert_eq!(
        copies,
        vec![
            FontCopy {
                source: "temp/font/1.woff".to_string(),
                destination: "commit/book7/1.woff".to_string(),
                staged: "book7/1.woff".to_string(),
            },
            FontCopy {
                source: "temp/font/2.woff".to_string(),
                destination: "commit/book7/2.woff".to_string(),
                staged: "book7/2.woff".to_string(),
            },
        ]
    );
    assert_eq!(publisher.fonts_committed(true, true, FONT_COMMIT), Ok(()));

    let sheets = publisher.stylesheets(&chapters).unwrap();
    assert_eq!(sheets.len(), 2);
    assert_eq!(sheets[0].path, "commit/book7/1.css");
    assert_eq!(sheets[0].staged, "book7/1.css");
    assert!(sheets[0].content.contains(FONT_COMMIT));
    assert!(sheets[0]
        .content
        .contains("https://cdn.jsdelivr.net/gh/alice/fonts@1111111111111111111111111111111111111111/book7/1.woff"));
    assert!(sheets[1].content.contains("/book7/2.woff"));

    assert_eq!(publisher.styles_committed(true, true, CSS_COMMIT), Ok(()));
    assert!(chapters.iter().all(|c| !c.encrypt()));
    assert_eq!(Chapter::collect_css_url(&publisher, &mut chapters), Ok(()));
    let url = chapters[0].css_url().unwrap();
    assert_eq!(
        url,
        "https://cdn.jsdelivr.net/gh/alice/fonts@2222222222222222222222222222222222222222/book7/1.min.css"
    );
    assert!(url.contains(CSS_COMMIT));
    assert!(url.ends_with("/1.min.css"));
    assert!(!url.contains(FONT_COMMIT));
    assert_ne!(FONT_COMMIT, CSS_COMMIT);
    assert!(chapters[1].css_url().unwrap().ends_with("/book7/2.min.css"));
    assert!(chapters.iter().all(|c| c.encrypt()));

    assert_eq!(publisher.pushed(true), Ok(()));
    assert_eq!(publisher.pushed(true), Err(Error::CommitStoreFailure));
    assert_eq!(publisher.css_commit(), Some(CSS_COMMIT));
    assert_eq!(publisher.book_id(), "book7");
}

#[test]
fn stylesheet_text_is_exact() {
    assert_eq!(
        create_css("https://example.org/f.woff", 12),
        "@font-face {\nfont-family: '12';\nsrc: url('https://example.org/f.woff') format('woff');\nfont-weight: normal;\nfont-style: normal;\nfont-display: swap;\n}"
    );
}

#[test]
fn stylesheet_of_a_chapter_names_its_font_by_the_font_commit() {
    let chapters = vec![chapter(3)];
    let mut publisher = Publisher::new(config(), "b");
    publisher.fonts_committed(true, true, "abc").unwrap();
    assert_eq!(
        publisher.stylesheets(&chapters),
        Ok(vec![Stylesheet {
            path: "commit/b/3.css".to_string(),
            staged: "b/3.css".to_string(),
            content: create_css("https://cdn.jsdelivr.net/gh/alice/fonts@abc/b/3.woff", 3),
        }])
    );
}

#[test]
fn address_shape_is_exact() {
    assert_eq!(
        cdn_address("owner", "repo", "abc123", "dir/file.woff"),
        "https://cdn.jsdelivr.net/gh/owner/repo@abc123/dir/file.woff"
    );
    assert_eq!(asset_path_of("book", 10, ".min.css"), "book/10.min.css");
    assert_eq!(asset_path_of("book", 0, ".woff"), "book/0.woff");
}

#[test]
fn stylesheets_need_the_font_commit() {
    let chapters = vec![chapter(1)];
    let publisher = Publisher::new(config(), "book");
    assert_eq!(publisher.stylesheets(&chapters), Err(Error::CommitStoreFailure));
}

#[test]
fn steps_out_of_order_change_nothing() {
    let mut chapters = vec![chapter(1)];
    let mut publisher = Publisher::new(config(), "book");
    assert_eq!(publisher.styles_committed(true, true, CSS_COMMIT), Err(Error::CommitStoreFailure));
    assert_eq!(Chapter::collect_css_url(&publisher, &mut chapters), Err(Error::CommitStoreFailure));
    assert_eq!(chapters, vec![chapter(1)]);
    assert_eq!(publisher.pushed(true), Err(Error::CommitStoreFailure));
    assert_eq!(publisher.fonts_committed(true, true, FONT_COMMIT), Ok(()));
    assert_eq!(publisher.fonts_committed(true, true, FONT_COMMIT), Err(Error::CommitStoreFailure));
    assert_eq!(publisher.pushed(true), Err(Error::CommitStoreFailure));
    assert!(publisher.stylesheets(&chapters).is_ok());
}

#[test]
fn empty_commit_identifier_fails_the_phase() {
    let mut chapters = vec![chapter(1)];
    let mut publisher = Publisher::new(config(), "book");
    assert_eq!(publisher.fonts_committed(true, true, ""), Err(Error::CommitHashUnavailable));
    assert_eq!(publisher.stylesheets(&chapters), Err(Error::CommitStoreFailure));
    assert_eq!(publisher.fonts_committed(true, true, FONT_COMMIT), Ok(()));
    assert_eq!(publisher.styles_committed(true, true, ""), Err(Error::CommitHashUnavailable));
    assert_eq!(Chapter::collect_css_url(&publisher, &mut chapters), Err(Error::CommitStoreFailure));
    assert_eq!(chapters[0].css_url(), None);
    assert!(!chapters[0].encrypt());
    assert_eq!(publisher.css_commit(), None);
    assert_eq!(publisher.styles_committed(true, true, CSS_COMMIT), Ok(()));
    assert_eq!(Chapter::collect_css_url(&publisher, &mut chapters), Ok(()));
    assert!(chapters[0].encrypt());
}

#[test]
fn chapter_without_font_fails_the_font_phase() {
    let plain = Chapter::new(2, "Two".to_string(), "temp/2.txt".to_string(), None);
    let chapters = vec![chapter(1), plain, Chapter::new(5, "Five".to_string(), "temp/5.txt".to_string(), None)];
    let publisher = Publisher::new(config(), "book");
    assert_eq!(publisher.font_copies(&chapters), Err(Error::MissingFontPath { index: 2 }));
}

#[test]
fn no_chapters_nothing_to_copy() {
    let publisher = Publisher::new(config(), "book");
    assert_eq!(publisher.font_copies(&vec![]), Ok(vec![]));
    assert_eq!(publisher.book_dir(), "commit/book");
    assert_eq!(publisher.config(), &config());
}

#[test]
fn commit_identifier_is_read_as_printed() {
    assert_eq!(get_commit_hash("abc\n"), Ok("abc\n".to_string()));
    assert_eq!(get_commit_hash(""), Err(Error::CommitHashUnavailable));
    assert_eq!(commit_hash_command(), strings(&["log", "-n", "1", "--pretty=format:%H"]));
}

#[test]
fn working_tree_is_set_up_once() {
    assert_eq!(initialize_git_repo(&config(), true), Vec::<Vec<String>>::new());
    assert_eq!(
        initialize_git_repo(&config(), false),
        vec![strings(&["init"]), strings(&["remote", "add", "origin", "git@github.com:alice/fonts.git"])]
    );
}

#[test]
fn commit_stages_all_files_and_commits_once() {
    let files = strings(&["book/1.woff", "book/2.woff"]);
    assert_eq!(
        git_commit(&files),
        vec![
            strings(&["add", "book/1.woff", "book/2.woff"]),
            strings(&["commit", "-m", "Add font and CSS file"]),
        ]
    );
    assert_eq!(git_commit(&vec![]), vec![strings(&["add"]), strings(&["commit", "-m", "Add font and CSS file"])]);
}

#[test]
fn push_goes_to_the_remote_head() {
    assert_eq!(git_push(), strings(&["push", "origin", "HEAD"]));
}

#[test]
fn addresses_can_be_collected_after_the_push_as_well() {
    let mut chapters = vec![chapter(8)];
    let mut publisher = Publisher::new(config(), "bk");
    publisher.fonts_committed(true, true, FONT_COMMIT).unwrap();
    publisher.styles_committed(true, true, CSS_COMMIT).unwrap();
    publisher.pushed(true).unwrap();
    assert_eq!(Chapter::collect_css_url(&publisher, &mut chapters), Ok(()));
    assert_eq!(
        chapters[0].css_url(),
        Some("https://cdn.jsdelivr.net/gh/alice/fonts@2222222222222222222222222222222222222222/bk/8.min.css")
    );
    assert_eq!(chapters[0].font_path(), Some("temp/font/8.woff"));
    assert_eq!(chapters[0].title(), "Chapter 8");
}

#[test]
fn setting_the_address_by_hand() {
    let mut one = chapter(1);
    one.set_css_url("https://example.org/1.min.css");
    assert_eq!(one.css_url(), Some("https://example.org/1.min.css"));
    assert!(one.encrypt());
    assert_eq!(one.index(), 1);
    assert_eq!(one.target_path(), "temp/encrypted/1.txt");
}

#[test]
fn a_command_that_did_not_succeed_is_fatal() {
    assert_eq!(store_outcome(true), Ok(()));
    assert_eq!(store_outcome(false), Err(Error::CommitStoreFailure));
    assert_eq!(commit_outcome(true, true, "abc"), Ok("abc".to_string()));
    assert_eq!(commit_outcome(false, true, "abc"), Err(Error::CommitStoreFailure));
    assert_eq!(commit_outcome(true, false, "abc"), Err(Error::CommitStoreFailure));
    assert_eq!(commit_outcome(false, false, ""), Err(Error::CommitStoreFailure));
    assert_eq!(commit_outcome(true, true, ""), Err(Error::CommitHashUnavailable));
}

#[test]
fn failed_staging_or_commit_fails_the_phase() {
    let mut chapters = vec![chapter(1)];
    let mut publisher = Publisher::new(config(), "book");
    assert_eq!(publisher.fonts_committed(false, true, FONT_COMMIT), Err(Error::CommitStoreFailure));
    assert_eq!(publisher.fonts_committed(true, false, FONT_COMMIT), Err(Error::CommitStoreFailure));
    assert_eq!(publisher.stylesheets(&chapters), Err(Error::CommitStoreFailure));
    assert_eq!(publisher.fonts_committed(true, true, FONT_COMMIT), Ok(()));
    assert_eq!(publisher.styles_committed(false, true, CSS_COMMIT), Err(Error::CommitStoreFailure));
    assert_eq!(publisher.styles_committed(true, false, CSS_COMMIT), Err(Error::CommitStoreFailure));
    assert_eq!(Chapter::collect_css_url(&publisher, &mut chapters), Err(Error::CommitStoreFailure));
    assert_eq!(chapters, vec![chapter(1)]);
    assert_eq!(publisher.css_commit(), None);
    assert!(publisher.stylesheets(&chapters).is_ok());
    assert_eq!(publisher.styles_committed(true, true, CSS_COMMIT), Ok(()));
    assert_eq!(Chapter::collect_css_url(&publisher, &mut chapters), Ok(()));
}

#[test]
fn failed_push_is_not_recorded() {
    let mut publisher = Publisher::new(config(), "book");
    publisher.fonts_committed(true, true, FONT_COMMIT).unwrap();
    publisher.styles_committed(true, true, CSS_COMMIT).unwrap();
    assert_eq!(publisher.pushed(false), Err(Error::CommitStoreFailure));
    assert_eq!(publisher.pushed(true), Ok(()));
    assert_eq!(publisher.pushed(true), Err(Error::CommitStoreFailure));
    let mut fresh = Publisher::new(config(), "book");
    assert_eq!(fresh.pushed(false), Err(Error::CommitStoreFailure));
}

use podcast_site::{
    check_duplicates, check_hygiene, chars_of, empty_path, empty_string, find_duplicate,
    frame_document, is_markdown_path, load_document, load_tree, Document, Episode, FrontMatter,
    LoadError, Timestamp, ABNORMAL_DASH,
};

fn front_matter(title: &str, file: &str) -> FrontMatter {
    FrontMatter {
        title: title.to_string(),
        date: Timestamp { seconds: 1_700_000_000, nanos: 0 },
        slug: Some(format!("{}-slug", title.to_lowercase())),
        file: file.to_string(),
        duration: "1:02:03".to_string(),
        length: "12345".to_string(),
        reddit: None,
    }
}

fn valid(path: &str, title: &str, file: &str) -> Document {
    Document {
        path: path.to_string(),
        content: Ok(format!("---\ntitle: {title}\nfile: {file}\n---\nNotes on {title}.\n")),
        decoded: Ok(front_matter(title, file)),
    }
}

fn episode(path: &str, file: &str) -> Episode {
    Episode::new(front_matter("T", file), path.to_string(), String::new())
}

#[test]
fn frame_splits_front_matter_and_body() {
    let f = frame_document("a.md", "---\ntitle: x\n---\nbody text\n").ok().unwrap();
    assert_eq!(f.front_matter, "title: x\n");
    assert_eq!(f.body, "body text\n");
}

#[test]
fn frame_round_trip_rejoins_text() {
    let text = "---\ntitle: Round\ndate: 2020-01-01T00:00:00Z\n---\n# Heading\n\nSome text.\n";
    let f = frame_document("r.md", text).ok().unwrap();
    assert_eq!(format!("---\n{}---\n{}", f.front_matter, f.body), text);
}

#[test]
fn frame_closing_at_end_of_text_gives_empty_body() {
    let f = frame_document("e.md", "---\ntitle: x\n---").ok().unwrap();
    assert_eq!(f.front_matter, "title: x\n");
    assert_eq!(f.body, "");
}

#[test]
fn frame_takes_first_dashes_after_opening_line() {
    let f = frame_document("d.md", "---\na: b---c\n---\nbody").ok().unwrap();
    assert_eq!(f.front_matter, "a: b");
    assert_eq!(f.body, "\n---\nbody");
}

#[test]
fn frame_counts_characters_not_bytes() {
    let f = frame_document("u.md", "---\ntitle: caf\u{e9}\n---\nna\u{ef}ve\n").ok().unwrap();
    assert_eq!(f.front_matter, "title: caf\u{e9}\n");
    assert_eq!(f.body, "na\u{ef}ve\n");
}

#[test]
fn frame_rejects_missing_opening_line() {
    match frame_document("m.md", "title: x\n---\n") {
        Err(LoadError::MissingOpening { path }) => assert_eq!(path, "m.md"),
        _ => panic!("expected the missing-opening error"),
    }
    match frame_document("n.md", "---title\n---\n") {
        Err(LoadError::MissingOpening { path }) => assert_eq!(path, "n.md"),
        _ => panic!("expected the missing-opening error"),
    }
}

#[test]
fn frame_rejects_missing_closing_line() {
    match frame_document("c.md", "---\ntitle: x\n--\n") {
        Err(LoadError::MissingClosing { path }) => assert_eq!(path, "c.md"),
        _ => panic!("expected the missing-closing error"),
    }
}

#[test]
fn hygiene_rejects_each_smart_quote() {
    for q in ['\u{201C}', '\u{201D}', '\u{2018}', '\u{2019}'] {
        let text = format!("---\ntitle: it{q}s\n---\n");
        match check_hygiene("q.md", &chars_of(&text)) {
            Err(LoadError::SmartQuote { path }) => assert_eq!(path, "q.md"),
            _ => panic!("expected the smart-quote error for {q}"),
        }
    }
}

#[test]
fn hygiene_reports_dash_before_quote() {
    let text = format!("\u{2019} then {ABNORMAL_DASH}");
    match check_hygiene("b.md", &chars_of(&text)) {
        Err(LoadError::AbnormalDash { path }) => assert_eq!(path, "b.md"),
        _ => panic!("expected the dash error"),
    }
}

#[test]
fn hygiene_accepts_plain_dashes_and_quotes() {
    let text = "---\ntitle: \"plain\" 'quotes' - and \u{2013} dashes\n---\n";
    assert!(check_hygiene("p.md", &chars_of(text)).is_ok());
}

#[test]
fn hygiene_runs_before_framing() {
    match frame_document("h.md", "no opening line \u{201C}") {
        Err(LoadError::SmartQuote { .. }) => {}
        _ => panic!("expected the smart-quote error"),
    }
}

#[test]
fn markdown_extension_is_required() {
    assert!(is_markdown_path("_episodes/s1/2020-01-01-one.md"));
    assert!(is_markdown_path("x.md"));
    assert!(!is_markdown_path(".md"));
    assert!(!is_markdown_path("dir/.md"));
    assert!(!is_markdown_path("notes.txt"));
    assert!(!is_markdown_path("episode.MD"));
    assert!(!is_markdown_path("episode"));
}

#[test]
fn load_document_sets_path_and_body() {
    let e = load_document(&valid("s/one.md", "One", "https://one.mp3")).ok().unwrap();
    assert_eq!(e.path, "s/one.md");
    assert_eq!(e.body, "Notes on One.\n");
    assert_eq!(e.title, "One");
    assert_eq!(e.file, "https://one.mp3");
    assert_eq!(e.slug, Some("one-slug".to_string()));
    assert_eq!(e.reddit, None);
    assert_eq!(e.date, Timestamp { seconds: 1_700_000_000, nanos: 0 });
}

#[test]
fn load_tree_of_valid_series_counts_every_document() {
    let tree = vec![
        vec![valid("a/1.md", "A1", "f1"), valid("a/2.md", "A2", "f2")],
        vec![],
        vec![valid("b/1.md", "B1", "f3"), valid("b/2.md", "B2", "f4"), valid("b/3.md", "B3", "f5")],
    ];
    let eps = load_tree(&tree).ok().unwrap();
    assert_eq!(eps.len(), 5);
    let paths: Vec<&str> = eps.iter().map(|e| e.path.as_str()).collect();
    assert_eq!(paths, vec!["a/1.md", "a/2.md", "b/1.md", "b/2.md", "b/3.md"]);
}

#[test]
fn load_empty_tree_gives_no_episodes() {
    let tree: Vec<Vec<Document>> = vec![];
    assert_eq!(load_tree(&tree).ok().unwrap().len(), 0);
}

#[test]
fn load_tree_fails_on_other_file_type() {
    let tree = vec![
        vec![valid("a/1.md", "A1", "f1")],
        vec![valid("b/cover.png", "B1", "f2"), valid("b/2.md", "B2", "f3")],
    ];
    match load_tree(&tree) {
        Err(e) => assert_eq!(e.message(), "Not a markdown file: b/cover.png"),
        Ok(_) => panic!("expected the unexpected-file-type error"),
    }
}

#[test]
fn load_tree_stops_at_first_failure() {
    let mut bad = valid("a/2.md", "A2", "f2");
    bad.decoded = Err("missing field `file`".to_string());
    let tree = vec![vec![valid("a/1.md", "A1", "f1"), bad, valid("a/3.txt", "A3", "f3")]];
    match load_tree(&tree) {
        Err(LoadError::Metadata { message, path }) => {
            assert_eq!(message, "missing field `file`");
            assert_eq!(path, "a/2.md");
        }
        _ => panic!("expected the metadata error"),
    }
}

#[test]
fn duplicate_in_one_series_reported_after_that_series() {
    let tree = vec![
        vec![valid("a/1.md", "A1", "same"), valid("a/2.md", "A2", "same")],
        vec![valid("b/1.txt", "B1", "other")],
    ];
    match load_tree(&tree) {
        Err(LoadError::DuplicateMediaFile { file, first, second }) => {
            assert_eq!(file, "same");
            assert_eq!(first, "a/1.md");
            assert_eq!(second, "a/2.md");
        }
        _ => panic!("expected the duplicate error"),
    }
}

#[test]
fn find_duplicate_names_first_pair() {
    let eps = vec![
        episode("p0", "x"),
        episode("p1", "y"),
        episode("p2", "z"),
        episode("p3", "y"),
        episode("p4", "x"),
    ];
    assert_eq!(find_duplicate(&eps), Some((1, 3)));
    match check_duplicates(&eps) {
        Err(e) => assert_eq!(e.message(), "The same mp3 file y was used twice in p1 and in p3"),
        Ok(()) => panic!("expected the duplicate error"),
    }
}

#[test]
fn distinct_files_pass_the_guard() {
    let eps = vec![episode("p0", "x"), episode("p1", "y")];
    assert_eq!(find_duplicate(&eps), None);
    assert!(check_duplicates(&eps).is_ok());
    assert!(check_duplicates(&vec![]).is_ok());
}

#[test]
fn every_error_has_its_message() {
    let p = || "s/e.md".to_string();
    assert_eq!(LoadError::Io { message: "denied".to_string() }.message(), "denied");
    assert_eq!(LoadError::UnexpectedFileType { path: p() }.message(), "Not a markdown file: s/e.md");
    assert_eq!(LoadError::AbnormalDash { path: p() }.message(), "Abnormal dash found in: s/e.md");
    assert_eq!(
        LoadError::SmartQuote { path: p() }.message(),
        "Smart quote found in: s/e.md. Please replace it with a normal quote."
    );
    assert_eq!(
        LoadError::MissingOpening { path: p() }.message(),
        "File does not start with '---': s/e.md"
    );
    assert_eq!(
        LoadError::MissingClosing { path: p() }.message(),
        "File does not contain the second '---', the end of the front-matter : \"s/e.md\""
    );
    assert_eq!(
        LoadError::Metadata { message: "bad".to_string(), path: p() }.message(),
        "Failed to parse front matter: bad in \"s/e.md\""
    );
}

#[test]
fn timestamp_parts_are_checked() {
    assert_eq!(
        Timestamp::from_parts(5, 999_999_999),
        Some(Timestamp { seconds: 5, nanos: 999_999_999 })
    );
    assert_eq!(Timestamp::from_parts(5, 2_000_000_000), None);
}

#[test]
fn empty_defaults() {
    assert_eq!(empty_path(), "");
    assert_eq!(empty_string(), "");
    assert_eq!(chars_of("a\u{e9}b"), vec!['a', '\u{e9}', 'b']);
}

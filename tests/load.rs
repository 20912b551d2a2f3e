use podcast_site::{load_document, load_tree, Document, FrontMatter, Timestamp};

fn front_matter(title: &str, file: &str) -> FrontMatter {
    FrontMatter {
        title: title.to_string(),
        date: Timestamp { seconds: 1_700_000_000, nanos: 0 },
        slug: None,
        file: file.to_string(),
        duration: "1:02:03".to_string(),
        length: "12345".to_string(),
        reddit: None,
    }
}

fn text_of(title: &str, file: &str) -> String {
    format!(
        "---\ntitle: {title}\ndate: 2023-11-14T22:13:20Z\nfile: {file}\nduration: 1:02:03\nlength: 12345\n---\nShow notes for {title}.\n"
    )
}

fn document(path: &str, title: &str, file: &str) -> Document {
    Document {
        path: path.to_string(),
        content: Ok(text_of(title, file)),
        decoded: Ok(front_matter(title, file)),
    }
}

fn raw(path: &str, text: &str) -> Document {
    Document {
        path: path.to_string(),
        content: Ok(text.to_string()),
        decoded: Err(String::new()),
    }
}

fn message_of_load(d: &Document) -> String {
    match load_document(d) {
        Ok(_) => panic!("expected an error loading {}", d.path),
        Err(e) => e.message(),
    }
}

#[test]
fn test_load_missing_file() {
    let d = Document {
        path: "test_cases/blabla.md".to_string(),
        content: Err(std::io::Error::from_raw_os_error(2).to_string()),
        decoded: Err(String::new()),
    };
    assert_eq!(message_of_load(&d), "No such file or directory (os error 2)");
}

#[test]
fn test_load_empty() {
    let d = raw("test_cases/empty.md", "");
    assert_eq!(
        message_of_load(&d),
        "File does not start with '---': test_cases/empty.md"
    );
}

#[test]
fn test_load_invalid_date() {
    let mut d = raw(
        "test_cases/invalid_date.md",
        "---\ntitle: Bad date\ndate: 2023-02-30T10:00:00Z\nfile: https://a.mp3\nduration: 1:00\nlength: 1\n---\nbody\n",
    );
    d.decoded = Err("date: input is out of range at line 2 column 7".to_string());
    assert_eq!(
        message_of_load(&d),
        "Failed to parse front matter: date: input is out of range at line 2 column 7 in \"test_cases/invalid_date.md\""
    );
}

#[test]
fn test_missing_end_of_header() {
    let d = raw(
        "test_cases/missing_end_of_header.md",
        "---\ntitle: No end\nfile: https://a.mp3\n\nThe body starts here.\n",
    );
    assert_eq!(
        message_of_load(&d),
        "File does not contain the second '---', the end of the front-matter : \"test_cases/missing_end_of_header.md\""
    );
}

#[test]
fn test_abnormal_dash() {
    let d = raw(
        "test_cases/abnormal_dash.md",
        "---\ntitle: Dash\n---\nA list:\n\u{2043} first\n",
    );
    assert_eq!(
        message_of_load(&d),
        "Abnormal dash found in: test_cases/abnormal_dash.md"
    );
}

#[test]
fn test_smart_quote() {
    let d = raw(
        "test_cases/smart_quote_1.md",
        "---\ntitle: Quote\n---\nHe said \u{201C}hello\u{201D}.\n",
    );
    assert_eq!(
        message_of_load(&d),
        "Smart quote found in: test_cases/smart_quote_1.md. Please replace it with a normal quote."
    );
}

#[test]
fn test_duplicate_mp3_file() {
    let tree = vec![
        vec![document("test_cases/duplicate_file/a/one.md", "One", "https://blabla.mp3")],
        vec![document("test_cases/duplicate_file/b/two.md", "Two", "https://blabla.mp3")],
    ];
    match load_tree(&tree) {
        Ok(_) => panic!("Expected error loading duplicate mp3 files"),
        Err(err) => {
            assert!(err
                .message()
                .starts_with("The same mp3 file https://blabla.mp3 was used twice"));
            assert_eq!(
                err.message(),
                "The same mp3 file https://blabla.mp3 was used twice in test_cases/duplicate_file/a/one.md and in test_cases/duplicate_file/b/two.md"
            );
        }
    }
}

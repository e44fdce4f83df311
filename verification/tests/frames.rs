use sapphire_journal::error::Error;
use sapphire_journal::parser::{
    bare_frontmatter, id_from_file_name, is_readable_name, read_entry_source, render_frame, split_frontmatter,
    split_optional_frontmatter, EntrySource, FrameError,
};

#[test]
fn splits_entry_with_frontmatter() {
    let src = "---\nid: '0000000'\ntitle: Hello\ntags: [rust, cli]\n---\nsome body\n";
    let (yaml, body) = split_frontmatter(src).unwrap();
    assert_eq!(yaml, "id: '0000000'\ntitle: Hello\ntags: [rust, cli]\n");
    assert_eq!(body, "some body\n");
}

#[test]
fn splits_entry_with_crlf_frontmatter() {
    let src = "---\r\nid: '0000000'\r\ntitle: Hello\r\ntags: [rust, cli]\r\n---\r\nsome body\r\n";
    let (yaml, body) = split_frontmatter(src).unwrap();
    assert_eq!(yaml, "id: '0000000'\r\ntitle: Hello\r\ntags: [rust, cli]\r\n");
    assert_eq!(body, "some body\r\n");
}

#[test]
fn frame_errors() {
    assert_eq!(split_frontmatter("just a body\n"), Err(FrameError::MissingFrontmatter));
    assert_eq!(split_frontmatter("---x\n"), Err(FrameError::MissingFrontmatter));
    assert_eq!(split_frontmatter("---\ntitle: a\n"), Err(FrameError::Unclosed));
    assert_eq!(FrameError::Unclosed.message(), "frontmatter block is not closed");
    assert_eq!(FrameError::MissingFrontmatter.message(), "missing frontmatter block");
}

#[test]
fn blank_lines_before_the_body_are_dropped() {
    let (yaml, body) = split_frontmatter("---\na: 1\n---\n\n\nbody").unwrap();
    assert_eq!(yaml, "a: 1\n");
    assert_eq!(body, "body");
    let (_, body) = split_frontmatter("---\n---\n").unwrap();
    assert_eq!(body, "");
}

#[test]
fn rendering_round_trips() {
    let text = render_frame("id: '0000000'\ntitle: My Task\n", "body\n");
    assert_eq!(text, "---\nid: '0000000'\ntitle: My Task\n---\n\nbody\n");
    assert_eq!(split_frontmatter(&text).unwrap(), ("id: '0000000'\ntitle: My Task\n".to_owned(), "body\n".to_owned()));
    let text = render_frame("a: 1\n", "");
    assert_eq!(text, "---\na: 1\n---\n");
    assert_eq!(split_frontmatter(&text).unwrap(), ("a: 1\n".to_owned(), String::new()));
}

#[test]
fn parses_entry_without_frontmatter() {
    let src = "just a body\n";
    let entry = match read_entry_source("0000000_test.md", src).unwrap() {
        EntrySource::Bare(e) => e,
        EntrySource::Framed { .. } => panic!("a file without `---` has no frontmatter block"),
    };
    assert!(entry.frontmatter.title.is_empty());
    assert_eq!(entry.body, "just a body\n");
}

#[test]
fn optional_frames() {
    assert_eq!(
        split_optional_frontmatter("---\nid: '0000000'\n---\n\nbody\n").unwrap(),
        Some(("id: '0000000'".to_owned(), "body\n".to_owned()))
    );
    // The block ends at the first `\n---`, even inside a line.
    assert_eq!(
        split_optional_frontmatter("---\na: 1\n----x\nrest").unwrap(),
        Some(("a: 1".to_owned(), "-x\nrest".to_owned()))
    );
    assert_eq!(split_optional_frontmatter("---\r\na: 1\n---\n").unwrap(), None);
    assert_eq!(split_optional_frontmatter("---\na: 1\n"), Err(FrameError::Unclosed));
}

#[test]
fn identifiers_in_file_names() {
    assert_eq!(id_from_file_name("0000010_note.md"), Some(32));
    assert_eq!(id_from_file_name("0000010.md"), Some(32));
    assert_eq!(id_from_file_name("000001.md"), None);
    assert_eq!(id_from_file_name("notes_about.md"), None);
    assert_eq!(id_from_file_name("abcdef日.md"), None);
    assert!(bare_frontmatter("readme.md").is_err());
    match bare_frontmatter("x.md") {
        Err(sapphire_journal::error::Error::InvalidEntry(m)) => {
            assert_eq!(m, "no frontmatter and filename does not contain a valid CarettaId")
        }
        other => panic!("unexpected {:?}", other),
    }
}

#[test]
fn entry_sources() {
    let src = "---\nid: '0000000'\ntitle: Hello\n---\nsome body\n";
    match read_entry_source("2026/0000000_hello.md", src).unwrap() {
        EntrySource::Framed { yaml, body } => {
            assert_eq!(yaml, "id: '0000000'\ntitle: Hello\n");
            assert_eq!(body, "some body\n");
        }
        EntrySource::Bare(_) => panic!("the file opens a frontmatter block"),
    }
    match read_entry_source("journal/2026/0000001_note.md", "plain text").unwrap() {
        EntrySource::Bare(e) => {
            assert_eq!(e.frontmatter.id, 1);
            assert_eq!(e.path, "journal/2026/0000001_note.md");
            assert_eq!(e.body, "plain text");
        }
        EntrySource::Framed { .. } => panic!("no frontmatter block here"),
    }
    assert!(matches!(
        read_entry_source("x.md", "---\nid: 1\n"),
        Err(Error::InvalidEntry(m)) if m == "frontmatter block is not closed"
    ));
    assert!(matches!(
        read_entry_source("notes.md", "body"),
        Err(Error::InvalidEntry(m)) if m == "no frontmatter and filename does not contain a valid CarettaId"
    ));
    assert!(is_readable_name("0000000_test.md"));
    assert!(is_readable_name("日本語.md"));
    assert!(!is_readable_name("a日本x.md"));
}

fn framed(path: &str, src: &str) -> (serde_yaml::Value, String) {
    match read_entry_source(path, src).unwrap() {
        EntrySource::Framed { yaml, body } => (serde_yaml::from_str(&yaml).unwrap(), body),
        EntrySource::Bare(_) => panic!("the file opens a frontmatter block"),
    }
}

fn tag_texts(v: &serde_yaml::Value) -> Vec<String> {
    v["tags"].as_sequence().unwrap().iter().map(|t| t.as_str().unwrap().to_string()).collect()
}

#[test]
fn parser_parses_entry_with_frontmatter() {
    let src = "---\nid: '0000000'\ntitle: Hello\ntags: [rust, cli]\n---\nsome body\n";
    let (fm, body) = framed("0000000_test.md", src);
    assert_eq!(fm["title"].as_str(), Some("Hello"));
    assert_eq!(tag_texts(&fm), vec!["rust", "cli"]);
    assert_eq!(body, "some body\n");
}

#[test]
fn parses_entry_with_crlf_frontmatter() {
    let src = "---\r\nid: '0000000'\r\ntitle: Hello\r\ntags: [rust, cli]\r\n---\r\nsome body\r\n";
    let (fm, body) = framed("0000000_test.md", src);
    assert_eq!(fm["title"].as_str(), Some("Hello"));
    assert_eq!(tag_texts(&fm), vec!["rust", "cli"]);
    assert_eq!(body, "some body\r\n");
}

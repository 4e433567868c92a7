use ply::application::{new, Application};
use ply::document::{frame, read, split, Document, DocumentError, Parts};
use ply::job::Job;
use ply::time::Timestamp;

fn parts(frontmatter: &str, content: &str) -> Parts {
    Parts {
        preamble: String::new(),
        frontmatter: frontmatter.to_string(),
        content: content.to_string(),
    }
}

#[test]
fn frame_puts_front_matter_between_delimiters() {
    assert_eq!(frame("a = 1\n", &Some("body\n".to_string())), "---\na = 1\n---\nbody\n");
    assert_eq!(frame("a = 1\n", &None), "---\na = 1\n---\n");
    assert_eq!(frame("", &None), "---\n---\n");
}

#[test]
fn split_reads_back_what_frame_wrote() {
    let text = frame("company = \"Acme\"\ntitle = \"Engineer\"\n", &Some("notes\nmore notes\n".to_string()));
    assert_eq!(split(&text), Ok(parts("company = \"Acme\"\ntitle = \"Engineer\"\n", "notes\nmore notes\n")));
    let text = frame("a = 1\n", &None);
    assert_eq!(split(&text), Ok(parts("a = 1\n", "")));
    let text = frame("", &Some("x".to_string()));
    assert_eq!(split(&text), Ok(parts("", "x")));
}

#[test]
fn split_keeps_the_content_as_it_stands() {
    for body in [
        "note",
        "note\n",
        "b\r\n",
        "\r\n\r\n",
        "a\n---\nb\n",
        "---",
        "---\n---\n---\n",
        "  \n\n  trailing  ",
        "\n",
        "",
        "é — ü\r",
    ] {
        let text = frame("a = 1\n", &Some(body.to_string()));
        assert_eq!(split(&text), Ok(parts("a = 1\n", body)));
    }
}

#[test]
fn split_sets_apart_what_stands_before_the_front_matter() {
    assert_eq!(
        split("pre\nmore\n---\nx = 1\n---\nbody"),
        Ok(Parts {
            preamble: "pre\nmore\n".to_string(),
            frontmatter: "x = 1\n".to_string(),
            content: "body".to_string(),
        })
    );
}

#[test]
fn split_reads_windows_line_ends() {
    assert_eq!(split("---\r\na = 1\r\n---\r\nb\r\n"), Ok(parts("a = 1\r\n", "b\r\n")));
}

#[test]
fn split_takes_delimiters_with_whitespace_around() {
    assert_eq!(split("  ---  \na\n\t---\nb\n"), Ok(parts("a\n", "b\n")));
    assert_eq!(split("---\na\n---"), Ok(parts("a\n", "")));
    assert_eq!(split("----\na\n---\nb\n"), Err(DocumentError::UnterminatedFrontMatter));
}

#[test]
fn split_refuses_an_open_front_matter() {
    assert_eq!(split("---\na = 1\n"), Err(DocumentError::UnterminatedFrontMatter));
    assert_eq!(split("---"), Err(DocumentError::UnterminatedFrontMatter));
    assert_eq!(split("---\na = 1\n--- x\n"), Err(DocumentError::UnterminatedFrontMatter));
}

#[test]
fn split_refuses_a_text_without_front_matter() {
    assert_eq!(split("just text\n"), Err(DocumentError::MissingFrontMatter));
    assert_eq!(split(""), Err(DocumentError::MissingFrontMatter));
    assert_eq!(split("a---\n"), Err(DocumentError::MissingFrontMatter));
}

#[test]
fn later_delimiter_lines_belong_to_the_content() {
    assert_eq!(
        split("---\na\n---\nb\n---\nc\n---\nd\n"),
        Ok(parts("a\n", "b\n---\nc\n---\nd\n"))
    );
}

#[test]
fn document_frames_its_content() {
    let job = Job {
        listing_url: None,
        company: "Acme".to_string(),
        title: "Engineer".to_string(),
        team: None,
        salary_range: None,
    };
    let app = new(job, None, Timestamp { seconds: 1709647629, nanos: 5_000_000 });
    let doc: Document<Application> = Document { record: app.clone(), content: Some("hello\n".to_string()) };
    assert_eq!(doc.new_content("x = 1\n"), "---\nx = 1\n---\nhello\n");
    assert_eq!(doc.filename(), Some("20240305140709005.acme.engineer.md".to_string()));
    assert_eq!(doc.prepared(), app);
    let back = read(app.clone(), split(&doc.new_content("x = 1\n")).unwrap());
    assert_eq!(back.record, app);
    assert_eq!(back.content, Some("hello\n".to_string()));
}

use fsbrowse::entry::Entry;
use fsbrowse::preview::{directory_preview, SyntaxHighlighter};

#[test]
fn directory_preview_colours_directories_and_files() {
    let children = vec![Entry::new("src".to_string(), true), Entry::new("a.rs".to_string(), false)];
    let lines = directory_preview(&children);
    assert_eq!(lines.len(), 2);
    assert_eq!(lines[0].text, vec!["src".to_string()]);
    assert_eq!(lines[0].colour, vec![(10, 10, 150)]);
    assert_eq!(lines[1].text, vec!["a.rs".to_string()]);
    assert_eq!(lines[1].colour, vec![(200, 200, 200)]);
}

#[test]
fn directory_preview_of_empty_directory() {
    assert!(directory_preview(&vec![]).is_empty());
}

#[test]
fn highlighted_lines_make_up_the_text() {
    let h = SyntaxHighlighter::new();
    let text = "fn main() {\n    let x = 1;\n}\n";
    let lines = h.load_file(Some("rs"), text);
    assert_eq!(lines.len(), 3);
    let expected = ["fn main() {\n", "    let x = 1;\n", "}\n"];
    for (line, want) in lines.iter().zip(expected.iter()) {
        assert_eq!(line.text.len(), line.colour.len());
        assert_eq!(line.text.concat(), *want);
    }
    // Rust keywords get another colour than plain identifiers.
    let first = &lines[0];
    assert!(first.text.len() > 1);
}

#[test]
fn unknown_extension_falls_back_to_plain_text() {
    let h = SyntaxHighlighter::new();
    let lines = h.load_file(Some("nosuchext"), "one\ntwo");
    assert_eq!(lines.len(), 2);
    assert_eq!(lines[0].text.concat(), "one\n");
    assert_eq!(lines[1].text.concat(), "two");
    let none = h.load_file(None, "plain");
    assert_eq!(none.len(), 1);
    assert_eq!(none[0].text.concat(), "plain");
}

#[test]
fn empty_file_has_empty_preview() {
    let h = SyntaxHighlighter::new();
    assert!(h.load_file(Some("rs"), "").is_empty());
}

#[test]
fn missing_or_unknown_extension_reads_as_txt() {
    let h = SyntaxHighlighter::new();
    let text = "fn x() {}\nsecond line\n";
    let as_txt = h.load_file(Some("txt"), text);
    let unknown = h.load_file(Some("nosuchext"), text);
    let missing = h.load_file(None, text);
    assert_eq!(as_txt.len(), 2);
    for other in [&unknown, &missing] {
        assert_eq!(other.len(), as_txt.len());
        for (x, y) in other.iter().zip(as_txt.iter()) {
            assert_eq!(x.text, y.text);
            assert_eq!(x.colour, y.colour);
        }
    }
}

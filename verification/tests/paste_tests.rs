use pastebin::paste::Line;
use pastebin::paste::Paste;

#[test]
fn default_context_is_empty() {
    let p = Paste::default();
    assert!(p.params.is_empty());
    assert!(p.paste.is_empty());
}

#[test]
fn add_param_keeps_insertion_order() {
    let mut p = Paste::new();
    p.add_param("url", "https://paste.example");
    p.add_param("id", "a1");
    assert_eq!(p.params, vec![
        ("url".to_string(), "https://paste.example".to_string()),
        ("id".to_string(), "a1".to_string()),
    ]);
}

#[test]
fn add_line_records_index_and_text() {
    let mut p = Paste::new();
    p.add_line(1, "first");
    p.add_line(2, "second");
    let got: Vec<(usize, String)> = p.paste.iter().map(|l| (l.index, l.line.clone())).collect();
    assert_eq!(got, vec![(1, "first".to_string()), (2, "second".to_string())]);
    let direct = Line { index: 3, line: "third".to_string() };
    assert_eq!(direct.index, 3);
    assert_eq!(direct.line, "third");
}

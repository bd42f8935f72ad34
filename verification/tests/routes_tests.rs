use pastebin::clock::TimeFields;
use pastebin::config::Config;
use pastebin::config::Paths;
use pastebin::config::Site;
use pastebin::paste::Paste;
use pastebin::paste::split_lines;
use pastebin::routes::Body;
use pastebin::routes::edit_paste;
use pastebin::routes::index_get;
use pastebin::routes::index_post;
use pastebin::routes::show_paste;
use pastebin::routes::show_raw;
use pastebin::storage::Directory;

fn config() -> Config {
    Config {
        site: Site { url: "https://paste.example".to_string(), serve: "0.0.0.0:8080".to_string() },
        paths: Paths {
            templates: "templates".to_string(),
            assets: "assets".to_string(),
            data: "data".to_string(),
        },
    }
}

fn instant() -> TimeFields {
    TimeFields { centis: 1, second: 2, minute: 3, hour: 4, day: 5, month: 6, year: 7 }
}

fn param<'a>(p: &'a Paste, key: &str) -> &'a str {
    for (k, v) in &p.params {
        if k.as_str() == key {
            return v;
        }
    }
    panic!("missing param {}", key);
}

#[test]
fn lines_split_on_newline_without_terminators() {
    let cases: &[(&str, &[&str])] = &[
        ("", &[]),
        ("a", &["a"]),
        ("a\nb\nc", &["a", "b", "c"]),
        ("a\n", &["a"]),
        ("\n", &[""]),
        ("a\n\nb", &["a", "", "b"]),
        ("foo\r\nbar\n\nbaz\r", &["foo", "bar", "", "baz\r"]),
        ("\r\n", &[""]),
        ("x\ry", &["x\ry"]),
    ];
    for (input, want) in cases {
        let got = split_lines(input);
        let want: Vec<String> = want.iter().map(|s| s.to_string()).collect();
        assert_eq!(got, want, "splitting {:?}", input);
    }
}

#[test]
fn index_get_renders_form_with_site_url() {
    let r = index_get(&config());
    assert_eq!(r.status, 200);
    match r.body {
        Body::Render { view, context } => {
            assert_eq!(view, "index");
            assert_eq!(context.params, vec![(
                "url".to_string(),
                "https://paste.example".to_string(),
            )]);
            assert!(context.paste.is_empty());
        },
        _ => panic!("expected a rendered view"),
    }
}

#[test]
fn show_paste_numbers_lines_from_one() {
    let mut dir = Directory::new();
    let id = dir.store(&instant(), &"a\nb\nc".to_string()).unwrap();
    let r = show_paste(&config(), &dir, &id);
    assert_eq!(r.status, 200);
    match r.body {
        Body::Render { view, context } => {
            assert_eq!(view, "paste");
            assert_eq!(param(&context, "url"), "https://paste.example");
            assert_eq!(param(&context, "id"), id);
            assert_eq!(param(&context, "index_width"), "1");
            let lines: Vec<(usize, &str)> =
                context.paste.iter().map(|l| (l.index, l.line.as_str())).collect();
            assert_eq!(lines, vec![(1, "a"), (2, "b"), (3, "c")]);
        },
        _ => panic!("expected a rendered view"),
    }
}

#[test]
fn show_paste_index_width_grows_at_ten_lines() {
    let mut dir = Directory::new();
    let content = "l\n".repeat(10);
    let id = dir.store(&instant(), &content).unwrap();
    let r = show_paste(&config(), &dir, &id);
    match r.body {
        Body::Render { context, .. } => {
            assert_eq!(context.paste.len(), 10);
            assert_eq!(param(&context, "index_width"), "2");
        },
        _ => panic!("expected a rendered view"),
    }
}

#[test]
fn show_paste_missing_id_renders_error() {
    let dir = Directory::new();
    let r = show_paste(&config(), &dir, &"nope".to_string());
    assert_eq!(r.status, 404);
    match r.body {
        Body::Render { view, context } => {
            assert_eq!(view, "error");
            assert_eq!(param(&context, "id"), "nope");
            assert_eq!(param(&context, "code"), "404");
            assert_eq!(param(&context, "description"), "Not Found: Requested ID doesn't exist.");
            assert!(context.paste.is_empty());
        },
        _ => panic!("expected a rendered view"),
    }
}

#[test]
fn show_raw_returns_stored_text_verbatim() {
    let mut dir = Directory::new();
    let content = "keep \r\n\tas-is \u{1F600}\nno trailing line\n";
    let id = dir.store(&instant(), &content.to_string()).unwrap();
    let r = show_raw(&config(), &dir, &id);
    assert_eq!(r.status, 200);
    match r.body {
        Body::Text(t) => assert_eq!(t, content),
        _ => panic!("expected a plain-text body"),
    }
}

#[test]
fn show_raw_missing_id_renders_error_without_id() {
    let dir = Directory::new();
    let r = show_raw(&config(), &dir, &"gone".to_string());
    assert_eq!(r.status, 404);
    match r.body {
        Body::Render { view, context } => {
            assert_eq!(view, "error");
            assert_eq!(context.params, vec![
                ("url".to_string(), "https://paste.example".to_string()),
                ("code".to_string(), "404".to_string()),
                ("description".to_string(), "Not Found: Requested ID doesn't exist".to_string()),
            ]);
        },
        _ => panic!("expected a rendered view"),
    }
}

#[test]
fn edit_paste_renders_edit_view_with_same_context() {
    let mut dir = Directory::new();
    let id = dir.store(&instant(), &"one\ntwo".to_string()).unwrap();
    let r = edit_paste(&config(), &dir, &id);
    assert_eq!(r.status, 200);
    match r.body {
        Body::Render { view, context } => {
            assert_eq!(view, "edit");
            assert_eq!(param(&context, "index_width"), "1");
            assert_eq!(context.paste.len(), 2);
        },
        _ => panic!("expected a rendered view"),
    }
}

#[test]
fn create_with_text_field_redirects() {
    let mut dir = Directory::new();
    let (r, stored) =
        index_post(&config(), &mut dir, &instant(), Some("my paste".to_string()), None);
    assert_eq!(r.status, 302);
    let (id, content) = stored.expect("a paste should have been stored");
    assert_eq!(content, "my paste");
    match r.body {
        Body::Redirect(loc) => assert_eq!(loc, format!("https://paste.example/{}", id)),
        _ => panic!("expected a redirect"),
    }
    assert_eq!(dir.load(&id).unwrap(), "my paste");
}

#[test]
fn create_with_paste_field_answers_plain_text_url() {
    let mut dir = Directory::new();
    let (r, stored) =
        index_post(&config(), &mut dir, &instant(), None, Some("cli paste".to_string()));
    assert_eq!(r.status, 200);
    let (id, content) = stored.expect("a paste should have been stored");
    assert_eq!(content, "cli paste");
    match r.body {
        Body::Text(t) => assert_eq!(t, format!("    https://paste.example/{}\n", id)),
        _ => panic!("expected a plain-text body"),
    }
    assert_eq!(dir.load(&id).unwrap(), "cli paste");
}

#[test]
fn text_field_wins_over_paste_field() {
    let mut dir = Directory::new();
    let (r, stored) = index_post(
        &config(),
        &mut dir,
        &instant(),
        Some("X".to_string()),
        Some("Y".to_string()),
    );
    assert_eq!(r.status, 302);
    assert!(matches!(r.body, Body::Redirect(_)));
    let (id, content) = stored.unwrap();
    assert_eq!(content, "X");
    assert_eq!(dir.load(&id).unwrap(), "X");
}

#[test]
fn create_without_either_field_is_bad_request() {
    let mut dir = Directory::new();
    let (r, stored) = index_post(&config(), &mut dir, &instant(), None, None);
    assert_eq!(r.status, 400);
    assert!(stored.is_none());
    match r.body {
        Body::Render { view, context } => {
            assert_eq!(view, "error");
            assert_eq!(param(&context, "code"), "400");
            assert_eq!(param(&context, "description"), "Bad Request: Invalid POST data");
        },
        _ => panic!("expected a rendered view"),
    }
    assert!(!dir.contains(&"1".to_string()));
}

#[test]
fn exhausted_text_submission_renders_conflict() {
    let mut dir = Directory::new();
    let zero = TimeFields { centis: 0, second: 0, minute: 0, hour: 0, day: 0, month: 0, year: 0 };
    dir.store(&zero, &"taken".to_string()).unwrap();
    let (r, stored) = index_post(&config(), &mut dir, &zero, Some("more".to_string()), None);
    assert_eq!(r.status, 409);
    assert!(stored.is_none());
    match r.body {
        Body::Render { view, context } => {
            assert_eq!(view, "error");
            assert_eq!(param(&context, "code"), "409");
            assert_eq!(param(&context, "description"), "Conflict: Unable to generate unique ID");
        },
        _ => panic!("expected a rendered view"),
    }
    assert_eq!(dir.load(&"0".to_string()).unwrap(), "taken");
}

#[test]
fn exhausted_cli_submission_answers_plain_text_conflict() {
    let mut dir = Directory::new();
    let zero = TimeFields { centis: 0, second: 0, minute: 0, hour: 0, day: 0, month: 0, year: 0 };
    dir.store(&zero, &"taken".to_string()).unwrap();
    let (r, stored) = index_post(&config(), &mut dir, &zero, None, Some("more".to_string()));
    assert_eq!(r.status, 409);
    assert!(stored.is_none());
    match r.body {
        Body::Text(t) => assert_eq!(t, "Error 409 Conflict: Unable to generate a unique ID"),
        _ => panic!("expected a plain-text body"),
    }
}

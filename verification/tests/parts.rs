use commit_metadata::text::{chars_of, document_body, is_white_space, locate, same_text};
use commit_metadata::yaml::parse;
use commit_metadata::{Kind, Url};

#[test]
fn locate_takes_what_follows_the_last_blank_line() {
    assert_eq!(locate("intro\n\ndetails\n\ntype: fix"), Some("type: fix"));
    assert_eq!(locate("a\n\nb"), Some("b"));
    assert_eq!(locate("a\n\n  b \n"), Some("  b \n"));
}

#[test]
fn locate_edge_cases() {
    assert_eq!(locate(""), None);
    assert_eq!(locate("\n"), None);
    assert_eq!(locate("a\nb\nc"), None);
    assert_eq!(locate("\n\n"), Some(""));
    assert_eq!(locate("a\n\n"), Some(""));
    assert_eq!(locate("a\n\n\nb"), Some("b"));
    assert_eq!(locate("a\n\n\n"), Some(""));
    assert_eq!(locate("\u{e9}t\u{e9}\n\n\u{1f600} x"), Some("\u{1f600} x"));
}

#[test]
fn locate_agrees_with_rfind() {
    for message in ["", "x", "\n\n", "a\n\nb\n\nc", "a\n\n\n\nb", "\n\n\n", "ab\n\ncd\n"] {
        let expected = message.rfind("\n\n").map(|i| &message[i + 2..]);
        assert_eq!(locate(message), expected);
    }
}

#[test]
fn document_body_strips_a_leading_marker_line_and_trims() {
    let cases = [
        ("", ""),
        ("---", ""),
        ("---\n", ""),
        ("---\na: 1\n", "a: 1"),
        ("---\r\na: 1\r\n", "a: 1"),
        ("a: 1\n", "a: 1"),
        ("----", "----"),
        ("-----x", "-----x"),
        ("---x", "---x"),
        ("--- x", "--- x"),
        ("a---", "a---"),
        ("a---b", "a---b"),
        (" \t a --- b ---  c\u{a0}\u{3000}\n", "a --- b ---  c"),
        ("\u{2028}x\u{85}", "x"),
        ("---\n ---\n", "---"),
        ("\n---\na\n", "---\na"),
        ("--", "--"),
    ];
    for (text, expected) in cases {
        assert_eq!(document_body(text), expected, "for {:?}", text);
    }
}

#[test]
fn document_body_of_unmarked_text_is_the_trimmed_text() {
    for text in ["", "a: 1\n", " a---b ", "co-authored-by: a---b\n", "- -- ---- - x", "\t\n"] {
        assert_eq!(document_body(text), text.trim(), "for {:?}", text);
    }
}

#[test]
fn white_space_is_what_std_calls_white_space() {
    let mut c = '\0';
    loop {
        assert_eq!(is_white_space(c), c.is_whitespace(), "for {:?}", c);
        if c == char::MAX {
            break;
        }
        c = char::from_u32(c as u32 + 1).unwrap_or('\u{e000}');
    }
}

#[test]
fn chars_and_text_equality() {
    assert_eq!(chars_of("a\u{e9}\n"), vec!['a', '\u{e9}', '\n']);
    assert_eq!(chars_of(""), Vec::<char>::new());
    assert!(same_text("fix", "fix"));
    assert!(!same_text("fix", "Fix"));
}

#[test]
fn kinds_and_their_wire_names() {
    let all = [
        (Kind::Added, "added"),
        (Kind::Breaking, "breaking"),
        (Kind::Changed, "changed"),
        (Kind::Fix, "fix"),
        (Kind::Misc, "misc"),
    ];
    for (kind, name) in all {
        assert_eq!(kind.wire(), name);
        assert_eq!(Kind::from_wire(name), Some(kind));
    }
    assert_eq!(Kind::from_wire("Fix"), None);
    assert_eq!(Kind::from_wire(""), None);
    assert_eq!(Kind::from_wire("fixed"), None);
}

#[test]
fn url_is_parsed_not_copied() {
    let url = Url::parse("HTTP://Example.ORG").unwrap();
    assert_eq!(url.as_str(), "http://example.org/");
    assert_eq!(url.duplicate().as_str(), "http://example.org/");
    assert!(url.same(&Url::parse("http://example.org/").unwrap()));
    assert!(!url.same(&Url::parse("http://example.org/a").unwrap()));
    assert!(Url::parse("").is_none());
    assert!(Url::parse("not a url").is_none());
    assert!(Url::parse("/relative/path").is_none());
}

#[test]
fn yaml_is_parsed_into_plain_values() {
    let document = parse("a: 1\nb: [x, true, ~]\nc: !t v\n").unwrap();
    assert_eq!(
        format!("{:?}", document),
        "Mapping([(Text(\"a\"), Number(\"1\")), (Text(\"b\"), Sequence([Text(\"x\"), Bool(true), Null])), (Text(\"c\"), Tagged(\"!t\", Text(\"v\")))])"
    );
    assert!(parse("a: [").is_err());
    assert!(parse("a: 1\na: 2\n").is_err());
}

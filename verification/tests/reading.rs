use commit_metadata::{Cause, Error, Fault, Kind, Metadata, Yaml};

fn read(message: &str) -> Result<Metadata, Error> {
    Metadata::from_commit("abc123", message.as_bytes())
}

fn links(metadata: &Metadata) -> Vec<String> {
    metadata.fixes.iter().map(|url| url.as_str().to_string()).collect()
}

#[test]
fn reads_kind_and_pull_request() {
    let m = read("Fix off-by-one\n\ntype: fix\npr: https://x.test/p/1\n").unwrap();
    assert_eq!(m.kind, Kind::Fix);
    assert_eq!(m.pr.as_ref().map(|url| url.as_str()), Some("https://x.test/p/1"));
    assert!(m.fixes.is_empty());
    assert_eq!(m.co_authored_by, None);
}

#[test]
fn reads_fixed_issues_in_order() {
    let m = read(
        "Refactor loop\n\ntype: changed\nfixes:\n  - https://x.test/i/7\n  - https://x.test/i/8\n",
    )
    .unwrap();
    assert_eq!(m.kind, Kind::Changed);
    assert!(m.pr.is_none());
    assert_eq!(links(&m), vec!["https://x.test/i/7".to_string(), "https://x.test/i/8".to_string()]);
    assert_eq!(m.co_authored_by, None);
}

#[test]
fn keeps_duplicate_fixed_issues() {
    let m = read("x\n\ntype: fix\nfixes:\n  - https://x.test/i/7\n  - https://x.test/i/7\n").unwrap();
    assert_eq!(links(&m), vec!["https://x.test/i/7".to_string(), "https://x.test/i/7".to_string()]);
}

#[test]
fn message_without_blank_line_is_missing() {
    match read("One line only") {
        Err(Error::CommitMetadataMissing { hash, message }) => {
            assert_eq!(hash, "abc123");
            assert_eq!(message, "One line only");
        }
        other => panic!("unexpected: {:?}", other),
    }
}

#[test]
fn single_newlines_are_no_separator() {
    assert!(matches!(read("a\nb\ntype: fix\n"), Err(Error::CommitMetadataMissing { .. })));
    assert!(matches!(read(""), Err(Error::CommitMetadataMissing { .. })));
}

#[test]
fn bad_yaml_is_a_deserialize_error() {
    match read("Body\n\nNot YAML at all: : :") {
        Err(Error::CommitMetadataDeserialize { hash, message, cause }) => {
            assert_eq!(hash, "abc123");
            assert_eq!(message, "Body\n\nNot YAML at all: : :");
            match cause {
                Cause::Syntax(diagnostic) => assert!(!diagnostic.is_empty()),
                Cause::Shape(_) => {}
            }
        }
        other => panic!("unexpected: {:?}", other),
    }
}

#[test]
fn unterminated_flow_sequence_is_a_syntax_error() {
    match read("Body\n\ntype: [fix") {
        Err(Error::CommitMetadataDeserialize { cause: Cause::Syntax(diagnostic), .. }) => {
            assert!(!diagnostic.is_empty())
        }
        other => panic!("unexpected: {:?}", other),
    }
}

#[test]
fn trailer_is_taken_after_the_last_blank_line() {
    let m = read("A\n\nB\n\ntype: added\nco-authored-by: J <j@x.test>\n").unwrap();
    assert_eq!(m.kind, Kind::Added);
    assert_eq!(m.co_authored_by.as_deref(), Some("J <j@x.test>"));
    assert!(m.pr.is_none());
    assert!(m.fixes.is_empty());
}

#[test]
fn body_with_blank_line_before_trailer() {
    let m = read("intro\n\ndetails\n\ntype: fix").unwrap();
    assert_eq!(m.kind, Kind::Fix);
}

#[test]
fn empty_fixes_default() {
    let m = read("x\n\ntype: changed").unwrap();
    assert_eq!(m.kind, Kind::Changed);
    assert_eq!(m.fixes.len(), 0);
    assert!(m.pr.is_none());
    assert!(m.co_authored_by.is_none());
}

#[test]
fn null_optional_fields_are_absent() {
    let m = read("x\n\ntype: misc\npr: ~\nco-authored-by: null\n").unwrap();
    assert_eq!(m.kind, Kind::Misc);
    assert!(m.pr.is_none());
    assert!(m.co_authored_by.is_none());
}

#[test]
fn empty_pull_request_is_rejected() {
    match read("x\n\ntype: fix\npr: \"\"\n") {
        Err(Error::CommitMetadataDeserialize { cause: Cause::Shape(fault), .. }) => {
            assert_eq!(fault, Fault::Pr)
        }
        other => panic!("unexpected: {:?}", other),
    }
}

#[test]
fn malformed_fixed_issue_is_rejected() {
    match read("x\n\ntype: fix\nfixes:\n  - https://x.test/i/7\n  - not a url\n") {
        Err(Error::CommitMetadataDeserialize { cause: Cause::Shape(fault), .. }) => {
            assert_eq!(fault, Fault::Fixes)
        }
        other => panic!("unexpected: {:?}", other),
    }
    match read("x\n\ntype: fix\nfixes: https://x.test/i/7\n") {
        Err(Error::CommitMetadataDeserialize { cause: Cause::Shape(fault), .. }) => {
            assert_eq!(fault, Fault::Fixes)
        }
        other => panic!("unexpected: {:?}", other),
    }
}

#[test]
fn missing_or_unknown_type_is_rejected() {
    for message in ["x\n\npr: https://x.test/p/1\n", "x\n\ntype: nonsense\n", "x\n\ntype: Fix\n", "x\n\ntype: ~\n"] {
        match read(message) {
            Err(Error::CommitMetadataDeserialize { cause: Cause::Shape(fault), .. }) => {
                assert_eq!(fault, Fault::Kind)
            }
            other => panic!("unexpected: {:?}", other),
        }
    }
}

#[test]
fn co_author_that_is_no_text_is_rejected() {
    match read("x\n\ntype: fix\nco-authored-by: [a, b]\n") {
        Err(Error::CommitMetadataDeserialize { cause: Cause::Shape(fault), .. }) => {
            assert_eq!(fault, Fault::CoAuthoredBy)
        }
        other => panic!("unexpected: {:?}", other),
    }
}

#[test]
fn trailer_that_is_no_mapping_is_rejected() {
    for message in ["x\n\njust text", "x\n\n- type: fix\n", "x\n\n"] {
        match read(message) {
            Err(Error::CommitMetadataDeserialize { cause, .. }) => match cause {
                Cause::Shape(fault) => assert_eq!(fault, Fault::NotMapping),
                Cause::Syntax(_) => {}
            },
            other => panic!("unexpected: {:?}", other),
        }
    }
}

#[test]
fn only_the_hyphenated_key_names_the_co_author() {
    let m = read("x\n\ntype: fix\ncoauthoredby: J <j@x.test>\n").unwrap();
    assert_eq!(m.co_authored_by, None);
    let m = read("x\n\ntype: fix\nco_authored_by: J <j@x.test>\n").unwrap();
    assert_eq!(m.co_authored_by, None);
    let m = read("x\n\ntype: fix\nco-authored-by: J <j@x.test>\n").unwrap();
    assert_eq!(m.co_authored_by.as_deref(), Some("J <j@x.test>"));
}

#[test]
fn invalid_bytes_in_the_body_are_replaced() {
    let mut bytes: Vec<u8> = b"Caf\xff \xc3( body".to_vec();
    bytes.extend_from_slice(b"\n\ntype: fix\npr: https://x.test/p/1\n");
    let m = Metadata::from_commit("abc123", &bytes).unwrap();
    assert_eq!(m.kind, Kind::Fix);
    assert_eq!(m.pr.as_ref().map(|url| url.as_str()), Some("https://x.test/p/1"));
}

#[test]
fn errors_carry_the_replaced_message() {
    match Metadata::from_commit("abc123", b"bad \xff byte") {
        Err(Error::CommitMetadataMissing { hash, message }) => {
            assert_eq!(hash, "abc123");
            assert_eq!(message, "bad \u{fffd} byte");
        }
        other => panic!("unexpected: {:?}", other),
    }
}

#[test]
fn from_message_reads_text() {
    let m = Metadata::from_message("h", "t\n\ntype: breaking\n".to_string()).unwrap();
    assert_eq!(m.kind, Kind::Breaking);
}

#[test]
fn pull_request_is_held_as_parsed() {
    let m = read("x\n\ntype: fix\npr: HTTPS://X.test\n").unwrap();
    assert_eq!(m.pr.as_ref().map(|url| url.as_str()), Some("https://x.test/"));
}

#[test]
fn parser_diagnostic_is_the_cause() {
    let parsed: Result<Yaml, String> = Err("line 1: nonsense".to_string());
    match Metadata::from_parsed("h", "a\n\nb".to_string(), parsed) {
        Err(Error::CommitMetadataDeserialize { hash, message, cause: Cause::Syntax(diagnostic) }) => {
            assert_eq!(hash, "h");
            assert_eq!(message, "a\n\nb");
            assert_eq!(diagnostic, "line 1: nonsense");
        }
        other => panic!("unexpected: {:?}", other),
    }
}

#[test]
fn parsed_document_is_decoded() {
    let document = Yaml::Mapping(vec![(Yaml::Text("type".to_string()), Yaml::Text("added".to_string()))]);
    let m = Metadata::from_parsed("h", "a\n\ntype: added".to_string(), Ok(document)).unwrap();
    assert_eq!(m.kind, Kind::Added);
    let document = Yaml::Sequence(Vec::new());
    match Metadata::from_parsed("h", "a\n\n[]".to_string(), Ok(document)) {
        Err(Error::CommitMetadataDeserialize { cause: Cause::Shape(fault), .. }) => {
            assert_eq!(fault, Fault::NotMapping)
        }
        other => panic!("unexpected: {:?}", other),
    }
}

#[test]
fn misspelt_co_author_key_leaves_the_field_absent() {
    for key in ["coauthoredby", "co_authored_by"] {
        let message = format!("Subject\n\ntype: changed\n{}: J <j@x.test>\n", key);
        let m = Metadata::from_commit("abc123", message.as_bytes()).unwrap();
        assert!(m.same(&Metadata::default()));
        assert_eq!(m.kind, Kind::Changed);
        assert!(m.pr.is_none());
        assert!(m.fixes.is_empty());
        assert_eq!(m.co_authored_by, None);
    }
}

use dch::grammar::{GrammarError, LineGrammar, LineMatch};
use dch::parser::Parser;
use dch::text::{split_lines, trim};
use dch::timestamp::Timestamp;

fn classify(line: &str) -> LineMatch {
    LineGrammar::new().unwrap().classify(line)
}

#[test]
fn the_four_patterns_compile() {
    let made: Result<LineGrammar, GrammarError> = LineGrammar::new();
    assert!(made.is_ok());
}

#[test]
fn a_header_line_gives_its_four_fields() {
    let found = classify("my-pkg (1:2.0-3+b1) stable unstable; urgency=high");
    let header = found.header.unwrap();
    assert_eq!(header.package, "my-pkg");
    assert_eq!(header.version, "1:2.0-3+b1");
    assert_eq!(header.distribution, "stable unstable");
    assert_eq!(header.urgency, "high");
    assert!(found.detail.is_none());
    assert!(found.mantainer.is_none());
    assert!(found.signature.is_none());
}

#[test]
fn a_header_must_fill_the_whole_line() {
    assert!(classify(" pkg (1.0) stable; urgency=low").header.is_none());
    assert!(classify("pkg (1.0) stable; urgency=low ").header.is_none());
    assert!(classify("pkg 1.0 stable; urgency=low").header.is_none());
    assert!(classify("pkg (1.0~rc) stable; urgency=low").header.is_none());
    assert!(classify("pkg (1.0) stable; urgency=").header.is_none());
}

#[test]
fn a_detail_line_gives_the_text_behind_the_bullet() {
    assert_eq!(classify("  * fixed it").detail, Some("fixed it".to_string()));
    assert_eq!(classify("*fixed it").detail, Some("fixed it".to_string()));
    assert_eq!(classify("\t*   spaced  out ").detail, Some("spaced  out ".to_string()));
    assert_eq!(classify("  *").detail, Some(String::new()));
    assert_eq!(classify("  * * twice").detail, Some("* twice".to_string()));
    assert!(classify("  - dashed").detail.is_none());
    assert!(classify("text * inside").detail.is_none());
}

#[test]
fn an_attribution_line_gives_the_name_between_the_brackets() {
    assert_eq!(classify("  [ Jane Doe ]").mantainer, Some("Jane Doe".to_string()));
    assert_eq!(classify("[ J ]").mantainer, Some("J".to_string()));
    assert_eq!(classify("  [ a ] b ]").mantainer, Some("a ] b".to_string()));
    assert_eq!(classify("  [  ]").mantainer, Some(String::new()));
    assert!(classify("  [Jane Doe]").mantainer.is_none());
    assert!(classify("  * [ Jane ]").mantainer.is_none());
}

#[test]
fn a_signature_line_gives_name_address_and_date() {
    let found = classify(" -- Jane Doe <jane@example.org>  Mon, 01 Jan 2024 00:00:00 +0000");
    let signature = found.signature.unwrap();
    assert_eq!(signature.mantainer_name, "Jane Doe");
    assert_eq!(signature.mantainer_email, "jane@example.org");
    assert_eq!(signature.date, Some(Timestamp { secs: 1704067200, nanos: 0, offset: 0 }));
    assert!(found.header.is_none());
    assert!(found.detail.is_none());
    assert!(found.mantainer.is_none());
}

#[test]
fn the_name_of_a_signature_loses_the_white_space_around_it() {
    let signature = classify("--\t  Jane   Doe \u{a0} <j@x> Tue, 02 Jan 2024 10:20:30 +0100")
        .signature
        .unwrap();
    assert_eq!(signature.mantainer_name, "Jane   Doe");
    assert_eq!(signature.mantainer_email, "j@x");
    assert_eq!(signature.date, Some(Timestamp { secs: 1704187230, nanos: 0, offset: 3600 }));
}

#[test]
fn a_signature_with_an_unreadable_date_has_none() {
    let signature = classify(" -- Jane <j@x>  sometime soon").signature.unwrap();
    assert_eq!(signature.mantainer_name, "Jane");
    assert_eq!(signature.date, None);
}

#[test]
fn the_address_of_a_signature_reaches_to_the_last_closing_bracket() {
    let signature = classify(" -- Jane <a> <b>  Mon, 01 Jan 2024 00:00:00 +0000").signature.unwrap();
    assert_eq!(signature.mantainer_name, "Jane");
    assert_eq!(signature.mantainer_email, "a> <b");
    let signature = classify(" -- Jane <a>b>  Mon, 01 Jan 2024 00:00:00 +0000").signature.unwrap();
    assert_eq!(signature.mantainer_email, "a>b");
    assert!(classify(" -- Jane <a>  Mon, 01 Jan 2024 00:00:00 +0000 (x)").signature.is_none());
}

#[test]
fn a_line_without_shape_matches_nothing() {
    let found = classify("    continued here");
    assert!(found.header.is_none());
    assert!(found.detail.is_none());
    assert!(found.mantainer.is_none());
    assert!(found.signature.is_none());
}

#[test]
fn trim_removes_white_space_at_both_ends_only() {
    assert_eq!(trim("  a b  "), "a b");
    assert_eq!(trim("\t\n a\u{2003}b \r\n"), "a\u{2003}b");
    assert_eq!(trim("\u{3000}x\u{a0}"), "x");
    assert_eq!(trim("   "), "");
    assert_eq!(trim(""), "");
    assert_eq!(trim("x"), "x");
    assert_eq!(trim("\u{200b}x"), "\u{200b}x");
}

#[test]
fn split_lines_drops_the_line_endings() {
    assert_eq!(split_lines("a\nb\n"), vec!["a".to_string(), "b".to_string()]);
    assert_eq!(split_lines("a\nb"), vec!["a".to_string(), "b".to_string()]);
    assert_eq!(split_lines("a\r\nb\r\n"), vec!["a".to_string(), "b".to_string()]);
    assert_eq!(split_lines("a\r\r\nb\r"), vec!["a\r".to_string(), "b\r".to_string()]);
    assert_eq!(split_lines("a\rb\n"), vec!["a\rb".to_string()]);
    assert_eq!(split_lines("\n\nx\n\n"), vec!["".to_string(), "".to_string(), "x".to_string(), "".to_string()]);
    assert_eq!(split_lines(""), Vec::<String>::new());
    assert_eq!(split_lines("\n"), vec!["".to_string()]);
    assert_eq!(split_lines("\r"), vec!["\r".to_string()]);
}

#[test]
fn split_lines_agrees_with_the_standard_library() {
    let texts = ["", "\n", "a", "a\n", "a\r\n", "a\r", "\r\n\r\n", "x\n\ny\r\n\r\nz", "é\nü\r\n", "\r\r\n\r"];
    for text in texts {
        let expected: Vec<String> = text.lines().map(|line| line.to_string()).collect();
        assert_eq!(split_lines(text), expected);
    }
}

#[test]
fn the_parser_closes_a_record_at_its_signature() {
    let grammar = LineGrammar::new().unwrap();
    let start = Timestamp { secs: 5, nanos: 0, offset: 0 };
    let mut parser = Parser::new(start);
    assert!(!parser.seen_header && !parser.seen_detail && !parser.seen_signature);
    let line = "pkg (1.0) stable; urgency=low";
    assert!(parser.step(line, grammar.classify(line)).is_none());
    assert!(parser.seen_header);
    assert_eq!(parser.accumulator.package, "pkg");
    let line = "";
    assert!(parser.step(line, grammar.classify("  * ignored")).is_none());
    assert!(!parser.seen_detail);
    let line = "  * one";
    assert!(parser.step(line, grammar.classify(line)).is_none());
    assert!(parser.seen_detail);
    let line = " -- N <n@x>  not a date";
    let record = parser.step(line, grammar.classify(line)).unwrap();
    assert_eq!(record.package, "pkg");
    assert_eq!(record.mantainer_details.len(), 1);
    assert_eq!(record.mantainer_details[0].details, vec!["one".to_string()]);
    assert_eq!(record.mantainer_name, "N");
    assert_eq!(record.date, start);
    assert!(!parser.seen_header && !parser.seen_detail && !parser.seen_signature);
    assert_eq!(parser.accumulator.package, "pkg");
    assert_eq!(parser.accumulator.mantainer_name, "N");
    assert_eq!(parser.accumulator.mantainer_details.len(), 1);
    assert!(parser.accumulator.mantainer_details[0].details.is_empty());
    assert_eq!(parser.accumulator.mantainer_details[0].mantainer, None);
}

#[test]
fn the_parser_takes_a_line_as_all_that_it_matches() {
    let mut parser = Parser::new(Timestamp { secs: 0, nanos: 0, offset: 0 });
    let found = LineMatch {
        header: Some(dch::grammar::Header {
            package: "p".to_string(),
            version: "v".to_string(),
            distribution: "d".to_string(),
            urgency: "u".to_string(),
        }),
        detail: Some("both".to_string()),
        mantainer: Some("Who".to_string()),
        signature: Some(dch::grammar::Signature {
            mantainer_name: "N".to_string(),
            mantainer_email: "e".to_string(),
            date: Some(Timestamp { secs: 9, nanos: 0, offset: 60 }),
        }),
    };
    let record = parser.step("anything", found).unwrap();
    assert_eq!(record.to_string(), "p (v) d; urgency=u\n\n  [ Who ]\n  * both\n\n -- N <e>  Thu, 01 Jan 1970 00:01:09 +0001\n");
}

fn groups(of: &[Option<&str>]) -> Vec<Option<String>> {
    of.iter().map(|group| group.map(|text| text.to_string())).collect()
}

#[test]
fn a_header_without_package_or_version_gets_the_placeholders() {
    let header = dch::grammar::Header::from_groups(&groups(&[Some("all"), None, None, None, None]));
    assert_eq!(header.package, "failed-to-find-package-name");
    assert_eq!(header.version, "failed-to-find-package-version");
    assert_eq!(header.distribution, "");
    assert_eq!(header.urgency, "");
    let header = dch::grammar::Header::from_groups(&groups(&[Some("all")]));
    assert_eq!(header.package, "failed-to-find-package-name");
    assert_eq!(header.version, "failed-to-find-package-version");
    let header = dch::grammar::Header::from_groups(&groups(&[
        Some("all"),
        Some("p"),
        Some("v"),
        Some("d"),
        Some("u"),
    ]));
    assert_eq!(header.package, "p");
    assert_eq!(header.version, "v");
    assert_eq!(header.distribution, "d");
    assert_eq!(header.urgency, "u");
}

#[test]
fn a_signature_is_made_from_its_three_groups() {
    let signature = dch::grammar::Signature::from_groups(&groups(&[
        Some("all"),
        Some("  Jane Doe "),
        Some(" jane@x "),
        Some("Mon, 01 Jan 2024 00:00:00 +0000"),
    ]));
    assert_eq!(signature.mantainer_name, "Jane Doe");
    assert_eq!(signature.mantainer_email, " jane@x ");
    assert_eq!(signature.date, Some(Timestamp { secs: 1704067200, nanos: 0, offset: 0 }));
    let signature = dch::grammar::Signature::from_groups(&groups(&[Some("all")]));
    assert_eq!(signature.mantainer_name, "");
    assert_eq!(signature.mantainer_email, "");
    assert_eq!(signature.date, None);
}

#[test]
fn a_capture_is_the_first_group() {
    assert_eq!(dch::grammar::capture_text(&groups(&[Some("all"), Some("one"), Some("two")])), "one");
    assert_eq!(dch::grammar::capture_text(&groups(&[Some("all"), None])), "");
    assert_eq!(dch::grammar::capture_text(&groups(&[])), "");
    assert_eq!(dch::grammar::group_text(&groups(&[Some("a"), Some("b")]), 0, "z"), "a");
    assert_eq!(dch::grammar::group_text(&groups(&[Some("a"), Some("b")]), 2, "z"), "z");
}

#[test]
fn trim_agrees_with_the_standard_library() {
    let texts = [
        "", " ", "a", " a", "a ", " a ", "\t\r\n a b \u{85}\u{2028}", "\u{1680}x\u{205f}y\u{3000}",
        "  inner   spaces  kept  ", "\u{feff}x", "é ", " 日本語 ", "\u{200a}\u{202f}", "x\u{0}",
    ];
    for text in texts {
        assert_eq!(trim(text), text.trim());
    }
}

#[test]
fn the_lines_of_a_rendering_are_read_as_what_they_were_written_for() {
    let grammar = LineGrammar::new().unwrap();
    let date = Timestamp { secs: 1704067200, nanos: 0, offset: 19800 };
    let mut changelog = dch::changelog::Changelog::new();
    changelog.dch(
        "my-pkg".to_string(),
        "1:2.0-3+b1".to_string(),
        "stable unstable".to_string(),
        "high".to_string(),
        vec!["first".to_string(), "second\n    wrapped".to_string()],
        "Jane Q. Doe".to_string(),
        "jane@example.org".to_string(),
        date,
    );
    changelog.records[0].mantainer_details[0].mantainer = Some("Jane Q. Doe".to_string());
    let text = changelog.to_string();
    let lines = split_lines(&text);
    assert_eq!(
        lines,
        vec![
            "my-pkg (1:2.0-3+b1) stable unstable; urgency=high",
            "",
            "  [ Jane Q. Doe ]",
            "  * first",
            "  * second",
            "    wrapped",
            "",
            " -- Jane Q. Doe <jane@example.org>  Mon, 01 Jan 2024 05:30:00 +0530",
            "",
        ]
    );
    let found = grammar.classify(&lines[0]);
    assert_eq!(found.header.as_ref().unwrap().package, "my-pkg");
    assert_eq!(found.header.as_ref().unwrap().version, "1:2.0-3+b1");
    assert_eq!(found.header.as_ref().unwrap().distribution, "stable unstable");
    assert_eq!(found.header.as_ref().unwrap().urgency, "high");
    assert!(found.detail.is_none() && found.mantainer.is_none() && found.signature.is_none());
    let found = grammar.classify(&lines[2]);
    assert_eq!(found.mantainer, Some("Jane Q. Doe".to_string()));
    assert!(found.header.is_none() && found.detail.is_none() && found.signature.is_none());
    let found = grammar.classify(&lines[3]);
    assert_eq!(found.detail, Some("first".to_string()));
    assert!(found.header.is_none() && found.mantainer.is_none() && found.signature.is_none());
    let found = grammar.classify(&lines[4]);
    assert_eq!(found.detail, Some("second".to_string()));
    let found = grammar.classify(&lines[5]);
    assert!(found.header.is_none() && found.detail.is_none());
    assert!(found.mantainer.is_none() && found.signature.is_none());
    let found = grammar.classify(&lines[7]);
    let signature = found.signature.unwrap();
    assert_eq!(signature.mantainer_name, "Jane Q. Doe");
    assert_eq!(signature.mantainer_email, "jane@example.org");
    assert_eq!(signature.date, Some(date));
    assert!(found.header.is_none() && found.detail.is_none() && found.mantainer.is_none());
    let mut again = dch::changelog::Changelog::new();
    again.from(&text, Timestamp { secs: 0, nanos: 0, offset: 0 }).unwrap();
    assert_eq!(again.to_string(), text);
}

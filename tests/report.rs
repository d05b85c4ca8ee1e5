use challenge_report::model::{
    Challenge, ChallengeTested, LoadError, ReportConfig, Schema, TestedStatus,
};
use challenge_report::render::{
    bool_cell, column_names, join_tags, render_header, render_report, render_row,
    render_separator,
};

fn strings(items: &[&str]) -> Vec<String> {
    items.iter().map(|s| s.to_string()).collect()
}

fn challenge(name: &str, author: &str, category: &str, tags: &[&str]) -> Challenge {
    Challenge {
        name: name.to_string(),
        author: author.to_string(),
        category: category.to_string(),
        tags: strings(tags),
    }
}

fn extended(tested: bool, tester: &str, solver: &str, url: &str) -> TestedStatus {
    TestedStatus::Extended {
        tested,
        tester: tester.to_string(),
        solver: solver.to_string(),
        tested_url: url.to_string(),
    }
}

const MINIMAL_HEADER: &str = "| tested | name | author | category | tags |\n\
                              |--------|------|--------|----------|------|\n";

const EXTENDED_HEADER: &str =
    "| tested | name | author | category | tags | tested by | tested URL |\n\
     |--------|------|--------|----------|------|-----------|------------|\n";

#[test]
fn tags_join_with_comma_and_space() {
    assert_eq!(join_tags(&strings(&["web", "easy"])), "web, easy");
}

#[test]
fn empty_tags_give_empty_cell() {
    assert_eq!(join_tags(&Vec::new()), "");
}

#[test]
fn single_tag_has_no_separator() {
    assert_eq!(join_tags(&strings(&["pwn"])), "pwn");
}

#[test]
fn empty_tags_render_empty_cell_in_row() {
    let rec = ChallengeTested {
        challenge: challenge("N", "Y", "misc", &[]),
        tested: TestedStatus::Minimal { tested: false },
    };
    assert_eq!(rec.to_markdown_row(), "| false | N | Y | misc |  |");
}

#[test]
fn row_pads_every_cell() {
    assert_eq!(render_row(&strings(&["a", "b c"])), "| a | b c |");
    assert_eq!(render_row(&Vec::new()), "|");
}

#[test]
fn separator_matches_padded_widths() {
    assert_eq!(render_separator(&strings(&["ab", "x"])), "|----|---|");
    assert_eq!(render_separator(&strings(&["", "tested URL"])), "|--|------------|");
}

#[test]
fn headers_of_both_layouts() {
    assert_eq!(render_header(Schema::Minimal), MINIMAL_HEADER);
    assert_eq!(render_header(Schema::Extended), EXTENDED_HEADER);
    assert_eq!(column_names(Schema::Minimal).len(), 5);
    assert_eq!(column_names(Schema::Extended).len(), 7);
}

#[test]
fn booleans_as_words_or_marks() {
    assert_eq!(bool_cell(Schema::Minimal, true), "true");
    assert_eq!(bool_cell(Schema::Minimal, false), "false");
    assert_eq!(bool_cell(Schema::Extended, true), "\u{2705}");
    assert_eq!(bool_cell(Schema::Extended, false), "\u{274c}");
}

#[test]
fn minimal_scenario_one_row_for_complete_directory() {
    // chal_a holds both files; chal_b has no challenge file.
    let chal_a = ChallengeTested::from_parts(
        Ok(challenge("A", "X", "web", &["a", "b"])),
        Ok(TestedStatus::Minimal { tested: true }),
    );
    let chal_b = ChallengeTested::from_parts(
        Err(LoadError::NotFound),
        Ok(TestedStatus::Minimal { tested: true }),
    );
    assert!(chal_b.is_err());
    let report = render_report(Schema::Minimal, &vec![chal_a, chal_b]);
    let expected = format!("{}| true | A | X | web | a, b |\n", MINIMAL_HEADER);
    assert_eq!(report, expected);
}

#[test]
fn extended_scenario_drops_solver() {
    let rec = ChallengeTested {
        challenge: challenge("A", "X", "web", &["a"]),
        tested: extended(false, "bob", "alice", "http://x"),
    };
    let row = rec.to_markdown_row();
    assert_eq!(row, "| \u{274c} | A | X | web | a | bob | http://x |");
    assert!(!row.contains("alice"));
    assert_eq!(rec.cells().len(), 7);
}

#[test]
fn extended_tested_row_uses_check_mark() {
    let rec = ChallengeTested {
        challenge: challenge("B", "Y", "pwn", &["heap", "easy"]),
        tested: extended(true, "carol", "dave", "https://example.org/b"),
    };
    assert_eq!(
        rec.to_markdown_row(),
        "| \u{2705} | B | Y | pwn | heap, easy | carol | https://example.org/b |"
    );
}

#[test]
fn no_records_give_header_only() {
    let entries: Vec<Result<ChallengeTested, LoadError>> =
        vec![Err(LoadError::NotFound), Err(LoadError::ParseError)];
    assert_eq!(render_report(Schema::Extended, &entries), EXTENDED_HEADER);
    assert_eq!(render_report(Schema::Minimal, &Vec::new()), MINIMAL_HEADER);
}

#[test]
fn row_count_equals_loaded_entries() {
    let ok = |name: &str| {
        Ok(ChallengeTested {
            challenge: challenge(name, "X", "web", &["t"]),
            tested: TestedStatus::Minimal { tested: true },
        })
    };
    let entries = vec![
        ok("one"),
        Err(LoadError::ParseError),
        ok("two"),
        Err(LoadError::NotFound),
        ok("three"),
    ];
    let report = render_report(Schema::Minimal, &entries);
    assert_eq!(report.lines().count(), 2 + 3);
    let names: Vec<&str> = report.lines().skip(2).map(|l| l.split(" | ").nth(1).unwrap()).collect();
    assert_eq!(names, vec!["one", "two", "three"]);
}

#[test]
fn same_input_same_report() {
    let make = || {
        vec![
            Ok(ChallengeTested {
                challenge: challenge("A", "X", "web", &["a", "b"]),
                tested: extended(true, "bob", "alice", "http://x"),
            }),
            Err(LoadError::NotFound),
        ]
    };
    assert_eq!(render_report(Schema::Extended, &make()), render_report(Schema::Extended, &make()));
}

#[test]
fn from_parts_passes_first_failure_on() {
    let ok_c = || Ok(challenge("A", "X", "web", &[]));
    let ok_t = || Ok(TestedStatus::Minimal { tested: true });
    assert!(matches!(
        ChallengeTested::from_parts(Err(LoadError::NotFound), Err(LoadError::ParseError)),
        Err(LoadError::NotFound)
    ));
    assert!(matches!(
        ChallengeTested::from_parts(Err(LoadError::ParseError), ok_t()),
        Err(LoadError::ParseError)
    ));
    assert!(matches!(
        ChallengeTested::from_parts(ok_c(), Err(LoadError::NotFound)),
        Err(LoadError::NotFound)
    ));
    let rec = ChallengeTested::from_parts(ok_c(), ok_t()).unwrap();
    assert_eq!(rec.challenge.name, "A");
    assert!(rec.tested.is_tested());
    assert_eq!(rec.tested.schema(), Schema::Minimal);
}

#[test]
fn default_config_and_output_names() {
    let c = ReportConfig::with_defaults(Schema::Extended);
    assert_eq!(c.challenge_file, "challenge.yml");
    assert_eq!(c.tested_file, "tested.yml");
    assert_eq!(c.dir_path, "./");
    assert_eq!(c.output_dir, "./");
    assert_eq!(c.output_file_name(), "TESTED.md");
    assert_eq!(ReportConfig::with_defaults(Schema::Minimal).output_file_name(), "README.md");
}

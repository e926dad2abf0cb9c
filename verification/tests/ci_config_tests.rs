//! Configuration-policy text helpers, exercised on inline samples.

use signal_fish_client::policy::{
    extract_h1, extract_nav_card_links, extract_nav_file_references,
    validate_msrv_toolchain_step, validate_sc2317_directive_line,
};

#[test]
fn standard_labeled_entry() {
    let input = "nav:\n  - Home: index.md\n";
    let refs = extract_nav_file_references(input);
    assert_eq!(refs, vec![(2, "index.md".to_string())]);
}

#[test]
fn bare_entry_without_label() {
    let input = "nav:\n  - index.md\n";
    let refs = extract_nav_file_references(input);
    assert_eq!(refs, vec![(2, "index.md".to_string())]);
}

#[test]
fn label_with_colons() {
    let input = "nav:\n  - API: Client: client.md\n";
    let refs = extract_nav_file_references(input);
    assert_eq!(refs, vec![(2, "client.md".to_string())]);
}

#[test]
fn section_only_header_no_file() {
    let input = "nav:\n  - Section:\n";
    let refs = extract_nav_file_references(input);
    assert!(
        refs.is_empty(),
        "Section-only headers should not produce file references"
    );
}

#[test]
fn deeply_nested_entry() {
    let input = "nav:\n        - Deep: deep.md\n";
    let refs = extract_nav_file_references(input);
    assert_eq!(refs, vec![(2, "deep.md".to_string())]);
}

#[test]
fn empty_nav_section() {
    let input = "nav:\ntheme:\n  name: material\n";
    let refs = extract_nav_file_references(input);
    assert!(
        refs.is_empty(),
        "Empty nav section should produce no references"
    );
}

#[test]
fn subdirectory_file_reference() {
    let input = "nav:\n  - Overview: api/overview.md\n";
    let refs = extract_nav_file_references(input);
    assert_eq!(refs, vec![(2, "api/overview.md".to_string())]);
}

#[test]
fn multiple_nav_entries() {
    let input = "\
nav:
  - Home: index.md
  - Guide:
    - Getting Started: getting-started.md
    - API: Client: api/client.md
  - other.md
";
    let refs = extract_nav_file_references(input);
    assert_eq!(
        refs,
        vec![
            (2, "index.md".to_string()),
            (4, "getting-started.md".to_string()),
            (5, "api/client.md".to_string()),
            (6, "other.md".to_string()),
        ]
    );
}

#[test]
fn extracts_local_md_links() {
    let content = r#"
    [:octicons-arrow-right-24: Getting Started](getting-started.md)
    [:octicons-arrow-right-24: docs.rs](https://docs.rs/signal-fish-client)
"#;
    let links = extract_nav_card_links(content);
    assert_eq!(links.len(), 1);
    assert_eq!(links[0].0, "Getting Started");
    assert_eq!(links[0].1, "getting-started.md");
}

#[test]
fn extracts_h1_skipping_fenced_blocks() {
    let content = "```\n# Not a title\n```\n# Real Title\n";
    assert_eq!(extract_h1(content), Some("Real Title".to_string()));
}

#[test]
fn no_h1_returns_none() {
    let content = "## Only H2\nSome text.\n";
    assert_eq!(extract_h1(content), None);
}

#[test]
fn msrv_toolchain_step_regressions_are_caught() {
    let cases = [
        (
            "valid_stable_with_explicit_toolchain",
            "  msrv:\n    steps:\n      - uses: dtolnay/rust-toolchain@stable\n        with:\n          toolchain: 1.85.0",
            true,
            None,
        ),
        (
            "valid_stable_with_quoted_toolchain",
            "  msrv:\n    steps:\n      - uses: dtolnay/rust-toolchain@stable\n        with:\n          toolchain: \"1.85.0\"",
            true,
            None,
        ),
        (
            "semver_like_ref_without_with_toolchain",
            "  msrv:\n    steps:\n      - uses: dtolnay/rust-toolchain@1.85.0",
            false,
            Some("semver-like dtolnay/rust-toolchain ref"),
        ),
        (
            "digit_leading_sha_ref_is_not_semver_like",
            "  msrv:\n    steps:\n      - uses: dtolnay/rust-toolchain@1a2b3c4d5e6f77889900aabbccddeeff00112233\n        with:\n          toolchain: 1.85.0",
            false,
            Some("missing 'uses: dtolnay/rust-toolchain@stable'"),
        ),
        (
            "stable_without_explicit_with_toolchain",
            "  msrv:\n    steps:\n      - uses: dtolnay/rust-toolchain@stable",
            false,
            Some("missing explicit 'toolchain: 1.85.0'"),
        ),
    ];

    for (name, job_block, expected_ok, expected_error_contains) in cases {
        let result = validate_msrv_toolchain_step(job_block, "1.85.0");
        assert_eq!(
            result.is_ok(),
            expected_ok,
            "MSRV validator regression for case '{}': {:?}",
            name,
            result
        );
        if let Some(expected_error_fragment) = expected_error_contains {
            let error = result.expect_err("case must fail when expected_error_contains is set");
            assert!(
                error.contains(expected_error_fragment),
                "MSRV validator regression for case '{}': expected error to contain '{}', got '{}'.",
                name,
                expected_error_fragment,
                error
            );
        }
    }
}

#[test]
fn sc2317_disable_directive_rejects_dash_separators() {
    let cases = [
        (
            "double-hyphen separator",
            "# shellcheck disable=SC2317 -- called indirectly via trap",
        ),
        (
            "em-dash separator",
            "# shellcheck disable=SC2317 \u{2014} called indirectly via trap",
        ),
        (
            "en-dash separator",
            "# shellcheck disable=SC2317 \u{2013} called indirectly via trap",
        ),
    ];

    for (name, directive_line) in cases {
        let result = validate_sc2317_directive_line("<case>", 1, directive_line);
        assert!(
            result.is_err(),
            "case '{}' should be rejected but passed: {}",
            name,
            directive_line
        );
    }
}

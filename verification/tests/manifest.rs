use goose_cli::manifest::parse_bin_names;

#[test]
fn parse_bin_names_ignores_non_bin_sections() {
    let manifest = r#"
[package]
name = "goose-cli"

[[bin]]
name = "goose"
path = "src/main.rs"

[[bin]]
name = "generate_manpages"
path = "src/bin/generate_manpages.rs"
"#;

    assert_eq!(
        parse_bin_names(manifest),
        vec!["goose", "generate_manpages"]
    );
}

#[test]
fn parse_bin_names_preserves_downstream_renames() {
    let manifest = r#"
[[bin]]
name = "hoarde"
path = "src/main.rs"

[[bin]]
name = "generate_manpages"
path = "src/bin/generate_manpages.rs"
"#;

    assert_eq!(
        parse_bin_names(manifest),
        vec!["hoarde", "generate_manpages"]
    );
}

#[test]
fn parse_bin_names_handles_comments_crlf_and_odd_lines() {
    let manifest = "[[bin]] # first\r\n  name = \"a\" # the name\r\nname=\"b\"\r\nnamespace = \"c\"\nname = d\nname = \"\"\nname = \"\n[dependencies]\nname = \"e\"\n[[bin]]\nname = \"f\"";
    assert_eq!(parse_bin_names(manifest), vec!["a", "b", "c", "", "f"]);
    let last = parse_bin_names("[[bin]]\nname = \"f\"");
    assert_eq!(last, vec!["f"]);
    assert!(parse_bin_names("").is_empty());
    assert!(parse_bin_names("name = \"x\"").is_empty());
}

#[test]
fn whitespace_agrees_with_std_on_every_char() {
    for code in 0u32..=0x10FFFF {
        if let Some(c) = char::from_u32(code) {
            assert_eq!(goose_cli::text::is_whitespace(c), c.is_whitespace(), "{code:#x}");
        }
    }
}

#[test]
fn names_are_trimmed_of_unicode_white_space() {
    let manifest = "[[bin]]\n\u{3000}name\u{a0}=\u{2003}\"wide\"\u{85}";
    assert_eq!(parse_bin_names(manifest), vec!["wide"]);
}

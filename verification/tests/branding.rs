use goose_cli::text::replace_all;
use goose_cli::brand::{capitalize, Brand, BrandOverrides};
use goose_cli::help::{apply_brand, rewrite_arg, rewrite_command, ArgHelp, CommandHelp};
use goose_cli::phrase::{is_rebrand_boundary, replace_standalone_phrase};
use goose_cli::rebrand::{rebrand_str, rewrite_cli_invocations};
use goose_cli::style::InteractiveStyle;

fn foobar_brand(alias_primary: &'static str, alias_short: &'static str) -> Brand {
    Brand {
        product_name: "Foobar",
        binary_name: "foobar",
        shell_alias_primary: alias_primary,
        shell_alias_short: alias_short,
        shell_fn_prefix: "foobar",
        deeplink_scheme: "foobar",
        github_owner: "acme",
        github_repo: "foobar",
        agent_identity_sentence: "You are foobar, an AI assistant.",
        interactive_style: "minimal",
    }
}

#[test]
fn default_brand_matches_hardcoded_defaults() {
    let b = Brand::default_brand();
    if !b.is_default() {
        return;
    }
    assert!(b.is_default(), "default build must have all defaults");
    assert_eq!(b.product_name, "goose");
    assert_eq!(b.binary_name, "goose");
    assert_eq!(b.shell_alias_primary, "goose");
    assert_eq!(b.shell_alias_short, "g");
    assert_eq!(b.shell_fn_prefix, "goose");
    assert_eq!(b.deeplink_scheme, "goose");
    assert_eq!(b.github_owner, "aaif-goose");
    assert_eq!(b.github_repo, "goose");
    assert_eq!(b.agent_identity_sentence, "You are goose, an AI assistant.");
    assert_eq!(b.interactive_style, "goose");
}

#[test]
fn capitalize_ascii() {
    assert_eq!(capitalize("goose"), "Goose");
    assert_eq!(capitalize("foobar"), "Foobar");
    assert_eq!(capitalize(""), "");
    assert_eq!(capitalize("A"), "A");
}

#[test]
fn rebrand_str_rewrites_tokens() {
    let b = foobar_brand("chat", "c");
    assert_eq!(
        rebrand_str("Configure goose settings", &b),
        "Configure Foobar settings"
    );
    assert_eq!(
        rebrand_str("Check that your Goose setup is working", &b),
        "Check that your Foobar setup is working"
    );
    assert_eq!(
        rebrand_str("eval \"$(goose term init zsh)\"", &b),
        "eval \"$(foobar term init zsh)\""
    );
    assert_eq!(
        rebrand_str("channel_name=goose-channel", &b),
        "channel_name=foobar-channel"
    );
    assert_eq!(
        rebrand_str("@goose \"create a python script\"", &b),
        "@chat \"create a python script\""
    );
    assert_eq!(
        rebrand_str("@g \"quick question\"", &b),
        "@c \"quick question\""
    );
}

#[test]
fn interactive_style_controls_prompt_and_banner() {
    let goose = Brand {
        product_name: "goose",
        binary_name: "goose",
        shell_alias_primary: "goose",
        shell_alias_short: "g",
        shell_fn_prefix: "goose",
        deeplink_scheme: "goose",
        github_owner: "aaif-goose",
        github_repo: "goose",
        agent_identity_sentence: "You are goose, an AI assistant.",
        interactive_style: "goose",
    };
    assert_eq!(goose.interactive_prefix(), "🪿 ");
    assert_eq!(goose.terminal_title_prefix(), "🪿");
    assert_eq!(
        goose.session_banner_lines(),
        ["  __( O)>", r" \____)", "   L L"]
    );

    let minimal = foobar_brand("foobar", "fb");
    assert_eq!(minimal.interactive_prefix(), "> ");
    assert_eq!(minimal.terminal_title_prefix(), "Foobar");
    assert_eq!(minimal.session_banner_lines(), [">", "", ""]);
}

#[test]
fn unknown_interactive_style_falls_back_to_goose() {
    let mut b = foobar_brand("foobar", "fb");
    b.interactive_style = "mystery";
    assert_eq!(b.interactive_prefix(), "🪿 ");
    assert_eq!(b.terminal_title_prefix(), "🪿");
    assert_eq!(
        b.session_banner_lines(),
        ["  __( O)>", r" \____)", "   L L"]
    );
}

#[test]
fn style_name_ignores_ascii_case() {
    assert_eq!(InteractiveStyle::from_env("MiNiMaL"), InteractiveStyle::Minimal);
    assert_eq!(InteractiveStyle::from_env("minimal "), InteractiveStyle::Goose);
    assert_eq!(InteractiveStyle::from_env(""), InteractiveStyle::Goose);
    assert_eq!(InteractiveStyle::Minimal.title_prefix(), "");
    assert_eq!(InteractiveStyle::Goose.prompt_prefix(), "🪿 ");
}

#[test]
fn is_default_notices_any_changed_field() {
    let mut b = foobar_brand("goose", "g");
    assert!(!b.is_default());
    b.product_name = "goose";
    b.binary_name = "goose";
    b.shell_fn_prefix = "goose";
    b.deeplink_scheme = "goose";
    b.github_owner = "aaif-goose";
    b.github_repo = "goose";
    b.agent_identity_sentence = "You are goose, an AI assistant.";
    b.interactive_style = "goose";
    assert!(b.is_default());
    b.github_repo = "goose2";
    assert!(!b.is_default());
}

#[test]
fn overrides_replace_only_the_fields_supplied() {
    let none = BrandOverrides {
        product_name: None,
        binary_name: None,
        shell_alias_primary: None,
        shell_alias_short: None,
        shell_fn_prefix: None,
        deeplink_scheme: None,
        github_owner: None,
        github_repo: None,
        agent_identity_sentence: None,
        interactive_style: None,
    };
    assert!(Brand::from_overrides(&none).is_default());
    let some = BrandOverrides { binary_name: Some("hoarde"), ..none };
    let b = Brand::from_overrides(&some);
    assert_eq!(b.binary_name, "hoarde");
    assert_eq!(b.product_name, "goose");
    assert!(!b.is_default());
}

#[test]
fn capitalize_uses_full_unicode_mapping() {
    assert_eq!(capitalize("ßig"), "SSig");
    assert_eq!(capitalize("émile"), "Émile");
    assert_eq!(capitalize("1st"), "1st");
}

#[test]
fn product_name_cap_and_title_prefix() {
    let mut b = foobar_brand("x", "y");
    b.product_name = "acme tools";
    assert_eq!(b.product_name_cap(), "Acme tools");
    assert_eq!(b.terminal_title_prefix(), "Acme tools");
}

#[test]
fn boundary_characters() {
    assert!(is_rebrand_boundary(None));
    assert!(is_rebrand_boundary(Some(' ')));
    assert!(is_rebrand_boundary(Some('.')));
    assert!(is_rebrand_boundary(Some('@')));
    assert!(!is_rebrand_boundary(Some('-')));
    assert!(!is_rebrand_boundary(Some('_')));
    assert!(!is_rebrand_boundary(Some('a')));
    assert!(!is_rebrand_boundary(Some('7')));
    assert!(!is_rebrand_boundary(Some('é')));
}

#[test]
fn standalone_phrase_only_replaces_whole_words() {
    assert_eq!(replace_standalone_phrase("goose", "goose", "x"), "x");
    assert_eq!(replace_standalone_phrase("mongoose goose", "goose", "x"), "mongoose x");
    assert_eq!(replace_standalone_phrase("goose_bin goose-x goose.", "goose", "x"), "goose_bin goose-x x.");
    assert_eq!(replace_standalone_phrase("goosegoose goose", "goose", "x"), "goosegoose x");
    assert_eq!(replace_standalone_phrase("(goose)(goose)", "goose", "gooseling"), "(gooseling)(gooseling)");
    assert_eq!(replace_standalone_phrase("", "goose", "x"), "");
    assert_eq!(replace_standalone_phrase("ägoose goose", "goose", "x"), "ägoose x");
}

#[test]
fn standalone_phrase_by_itself_changes_nothing() {
    let s = "goose term, mongoose and goose-channel with Goose";
    assert_eq!(replace_standalone_phrase(s, "goose", "goose"), s);
    assert_eq!(replace_standalone_phrase(s, "goose term", "goose term"), s);
}

#[test]
fn cli_invocations_use_binary_name() {
    let b = foobar_brand("chat", "c");
    assert_eq!(
        rewrite_cli_invocations("run goose term init and goose terminal", &b),
        "run foobar term init and goose terminal"
    );
}

#[test]
fn rebrand_keeps_text_without_product_nouns() {
    let b = foobar_brand("chat", "c");
    assert_eq!(rebrand_str("List files", &b), "List files");
    assert_eq!(rebrand_str("mongoose @gamma", &b), "mongoose @gamma");
    assert_eq!(rebrand_str("Report issues at @github", &b), "Report issues at @github");
    assert_eq!(rebrand_str("@goosey @g_x @g-y @g.", &b), "@goosey @g_x @g-y @c.");
    assert_eq!(rebrand_str("ask @goose, or @g", &b), "ask @chat, or @c");
}

#[test]
fn rebrand_with_default_brand_changes_nothing() {
    let b = Brand::default_brand();
    let s = "Run @goose or @g; goose term init; Goose; goose-channel";
    assert_eq!(rebrand_str(s, b), s);
}

fn arg(id: &str, help: Option<&str>) -> ArgHelp {
    ArgHelp {
        id: id.to_string(),
        help: help.map(|h| h.to_string()),
        long_help: None,
        default_value: None,
    }
}

fn sample_tree() -> CommandHelp {
    CommandHelp {
        name: "goose".to_string(),
        bin_name: None,
        about: Some("goose is an AI agent".to_string()),
        long_about: None,
        args: vec![arg("verbose", Some("Make goose chatty"))],
        subcommands: vec![
            CommandHelp {
                name: "term".to_string(),
                bin_name: None,
                about: Some("Runs a goose session tied to your terminal window.".to_string()),
                long_about: Some("eval \"$(goose term init zsh)\"\n@goose \"create a python script\"\n@g \"quick question\"".to_string()),
                args: vec![],
                subcommands: vec![],
            },
            CommandHelp {
                name: "completion".to_string(),
                bin_name: None,
                about: None,
                long_about: None,
                args: vec![arg("bin_name", None), arg("shell", Some("Shell to generate for"))],
                subcommands: vec![],
            },
        ],
    }
}

#[test]
fn rewrite_command_rebrands_the_tree() {
    let b = foobar_brand("chat", "c");
    let r = rewrite_command(sample_tree(), &b);
    assert_eq!(r.name, "foobar");
    assert_eq!(r.bin_name.as_deref(), Some("foobar"));
    assert_eq!(r.about.as_deref(), Some("Foobar is an AI agent"));
    assert_eq!(r.args[0].help.as_deref(), Some("Make Foobar chatty"));
    let term = &r.subcommands[0];
    assert_eq!(term.name, "term");
    assert_eq!(term.about.as_deref(), Some("Runs a Foobar session tied to your terminal window."));
    assert_eq!(
        term.long_about.as_deref(),
        Some("eval \"$(foobar term init zsh)\"\n@chat \"create a python script\"\n@c \"quick question\"")
    );
    let completion = &r.subcommands[1];
    assert_eq!(completion.args[0].id, "bin_name");
    assert_eq!(completion.args[0].default_value.as_deref(), Some("foobar"));
    assert_eq!(completion.args[1].default_value, None);
    assert_eq!(completion.args[1].help.as_deref(), Some("Shell to generate for"));
}

#[test]
fn rewrite_arg_keeps_id_and_default() {
    let b = foobar_brand("chat", "c");
    let a = ArgHelp {
        id: "goose".to_string(),
        help: Some("Ask goose".to_string()),
        long_help: Some("Ask Goose, or @goose".to_string()),
        default_value: Some("goose".to_string()),
    };
    let r = rewrite_arg(a, &b);
    assert_eq!(r.id, "goose");
    assert_eq!(r.help.as_deref(), Some("Ask Foobar"));
    assert_eq!(r.long_help.as_deref(), Some("Ask Foobar, or @chat"));
    assert_eq!(r.default_value.as_deref(), Some("goose"));
}

#[test]
fn branding_with_default_brand_is_a_no_op() {
    let before = sample_tree();
    let after = apply_brand(sample_tree(), Brand::default_brand());
    assert_eq!(after.name, before.name);
    assert_eq!(after.about, before.about);
    assert_eq!(after.subcommands[0].long_about, before.subcommands[0].long_about);
    let after = apply_brand(sample_tree(), Brand::default_brand());
    assert_eq!(after.subcommands[1].args[0].default_value, None);
    let b = foobar_brand("chat", "c");
    let after = apply_brand(sample_tree(), &b);
    assert_eq!(after.name, "foobar");
}

#[test]
fn replace_all_scans_left_to_right_without_overlap() {
    let s: Vec<char> = "@goose @g @gg aaa".chars().collect();
    let from: Vec<char> = "@g".chars().collect();
    let to: Vec<char> = "<>".chars().collect();
    let r: String = replace_all(&s, &from, &to).into_iter().collect();
    assert_eq!(r, "<>oose <> <>g aaa");
    let aa: Vec<char> = "aa".chars().collect();
    let x: Vec<char> = "x".chars().collect();
    let r: String = replace_all(&s, &aa, &x).into_iter().collect();
    assert_eq!(r, "@goose @g @gg xa");
    let r: String = replace_all(&s, &from, &from).into_iter().collect();
    assert_eq!(r, "@goose @g @gg aaa");
}

#[test]
fn root_reexports() {
    let b: &goose_cli::Brand = goose_cli::Brand::default_brand();
    assert_eq!(b.interactive_style_kind(), goose_cli::InteractiveStyle::Goose);
}

#[test]
fn default_names_rewrite_nothing_even_with_other_fields_changed() {
    let mut b = foobar_brand("goose", "g");
    b.product_name = "goose";
    b.binary_name = "goose";
    assert!(!b.is_default());
    let s = "Run @goose or @g; goose term init; Goose; goose-channel; @github";
    assert_eq!(rebrand_str(s, &b), s);
}

#[test]
fn noun_next_to_a_parked_alias_is_not_standalone() {
    let b = foobar_brand("chat", "c");
    assert_eq!(rebrand_str("goose@g", &b), "goose@c");
    assert_eq!(rebrand_str("@goose-channel", &b), "@foobar-channel");
}

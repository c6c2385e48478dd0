use goose_cli::brand::Brand;
use goose_cli::help::{apply_brand, rewrite_command, ArgHelp, CommandHelp};

fn arg(id: &str, help: &str) -> ArgHelp {
    ArgHelp {
        id: id.to_string(),
        help: Some(help.to_string()),
        long_help: None,
        default_value: None,
    }
}

fn command(name: &str, about: &str, long_about: Option<&str>, args: Vec<ArgHelp>, subcommands: Vec<CommandHelp>) -> CommandHelp {
    CommandHelp {
        name: name.to_string(),
        bin_name: None,
        about: Some(about.to_string()),
        long_about: long_about.map(|s| s.to_string()),
        args,
        subcommands,
    }
}

/// A command tree carrying the help texts of the CLI that the branding pass
/// has to rewrite.
fn cli_tree() -> CommandHelp {
    command(
        "goose",
        "An AI agent for your machine",
        Some("goose is an AI agent that runs on your machine."),
        vec![arg("verbose", "Make goose print more")],
        vec![
            command(
                "mcp",
                "Run one of the mcp servers bundled with goose",
                None,
                vec![arg("server", "Name of the server")],
                vec![],
            ),
            command(
                "term",
                "Terminal-integrated session",
                Some(
                    "Runs a goose session tied to your terminal window.\n\nSetup:\n  eval \"$(goose term init zsh)\"\n\nUsage:\n  goose term run \"list files in this directory\"\n  @goose \"create a python script\"\n  @g \"quick question\"",
                ),
                vec![],
                vec![
                    command(
                        "run",
                        "Run a prompt in the terminal session",
                        Some("Examples:\n  @goose list files\n  @g why did that fail"),
                        vec![arg("prompt", "The prompt to send to goose")],
                        vec![],
                    ),
                    command(
                        "init",
                        "Print the shell integration of goose",
                        None,
                        vec![arg("shell", "Shell to print it for")],
                        vec![],
                    ),
                ],
            ),
            command(
                "completion",
                "Generate shell completions",
                None,
                vec![arg("bin_name", "Binary name used in the script"), arg("shell", "Target shell")],
                vec![],
            ),
            command("help", "Print this message or the help of the given subcommand(s)", None, vec![], vec![]),
        ],
    )
}

fn brand(
    product_name: &'static str,
    binary_name: &'static str,
    alias_primary: &'static str,
    alias_short: &'static str,
) -> Brand {
    Brand {
        product_name,
        binary_name,
        shell_alias_primary: alias_primary,
        shell_alias_short: alias_short,
        shell_fn_prefix: binary_name,
        deeplink_scheme: binary_name,
        github_owner: "acme",
        github_repo: binary_name,
        agent_identity_sentence: "You are foobar, an AI assistant.",
        interactive_style: "minimal",
    }
}

/// The help of one command as text: its name, descriptions and argument
/// helps, then the names and descriptions of its subcommands.
fn render(cmd: &CommandHelp) -> String {
    let mut out = String::new();
    out.push_str(&cmd.name);
    out.push('\n');
    for text in [&cmd.about, &cmd.long_about].into_iter().flatten() {
        out.push_str(text);
        out.push('\n');
    }
    for a in &cmd.args {
        out.push_str(&a.id);
        out.push(' ');
        for text in [&a.help, &a.long_help, &a.default_value].into_iter().flatten() {
            out.push_str(text);
            out.push('\n');
        }
    }
    for sub in &cmd.subcommands {
        out.push_str(&sub.name);
        out.push(' ');
        if let Some(about) = &sub.about {
            out.push_str(about);
        }
        out.push('\n');
    }
    out
}

fn find<'a>(cmd: &'a CommandHelp, name: &str) -> &'a CommandHelp {
    cmd.subcommands.iter().find(|s| s.name == name).unwrap()
}

fn assert_no_leaks_recursive(cmd: &CommandHelp, path: &str) {
    let current_path = if path.is_empty() {
        cmd.name.clone()
    } else {
        format!("{path} {}", cmd.name)
    };
    let help = render(cmd);
    assert!(!help.contains("goose"), "branding leak: `{current_path}` help contains `goose`:\n{help}");
    assert!(!help.contains("Goose"), "branding leak: `{current_path}` help contains `Goose`:\n{help}");
    for sub in &cmd.subcommands {
        if sub.name == "help" {
            continue;
        }
        assert_no_leaks_recursive(sub, &current_path);
    }
}

fn assert_same_tree(a: &CommandHelp, b: &CommandHelp) {
    assert_eq!(render(a), render(b));
    assert_eq!(a.bin_name, b.bin_name);
    assert_eq!(a.subcommands.len(), b.subcommands.len());
    for (x, y) in a.subcommands.iter().zip(b.subcommands.iter()) {
        assert_same_tree(x, y);
    }
}

#[test]
fn apply_branding_is_noop_when_help_brand_matches_defaults() {
    let b = Brand::default_brand();
    if !b.is_default() {
        return;
    }
    let before = cli_tree();
    let after = apply_brand(cli_tree(), b);
    assert_same_tree(&before, &after);
}

#[test]
fn synthetic_non_default_brand_rewrites_alias_examples() {
    let b = brand("Foobar", "foobar", "chat", "c");
    let cmd = rewrite_command(cli_tree(), &b);
    let term_help = render(find(&cmd, "term"));
    assert!(term_help.contains("@chat \"create a python script\""), "{term_help}");
    assert!(term_help.contains("@c \"quick question\""), "{term_help}");
    assert!(!term_help.contains("@foobar \"create a python script\""), "{term_help}");

    let run_help = render(find(find(&cmd, "term"), "run"));
    assert!(run_help.contains("@chat list files"), "{run_help}");
    assert!(run_help.contains("@c why did that fail"), "{run_help}");
    assert!(!run_help.contains("@foobar list files"), "{run_help}");
}

#[test]
fn synthetic_non_default_brand_rewrites_help() {
    let b = brand("Foobar", "foobar", "foobar", "fb");
    let cmd = rewrite_command(cli_tree(), &b);
    assert_eq!(cmd.name, "foobar");
    let rendered = render(&cmd);
    assert!(!rendered.contains("goose"), "{rendered}");
    assert!(!rendered.contains("Goose"), "{rendered}");
}

#[test]
fn mismatched_product_and_binary_names_keep_help_semantics_distinct() {
    let b = brand("Foobar Assistant", "fb", "chat", "c");
    let cmd = rewrite_command(cli_tree(), &b);
    let mcp_help = render(find(&cmd, "mcp"));
    assert!(mcp_help.contains("bundled with Foobar Assistant"), "{mcp_help}");
    assert!(!mcp_help.contains("bundled with fb"), "{mcp_help}");

    let term_help = render(find(&cmd, "term"));
    assert!(
        term_help.contains("Runs a Foobar Assistant session tied to your terminal window."),
        "{term_help}"
    );
    assert!(term_help.contains("eval \"$(fb term init zsh)\""), "{term_help}");
    assert!(term_help.contains("fb term run \"list files in this directory\""), "{term_help}");
}

#[test]
fn no_goose_leaks_in_any_branded_subcommand_help() {
    let b = brand("Foobar", "foobar", "foobar", "fb");
    let cmd = rewrite_command(cli_tree(), &b);
    assert_no_leaks_recursive(&cmd, "");
}

#[test]
fn completion_bin_name_defaults_to_the_binary() {
    let b = brand("Foobar", "foobar", "foobar", "fb");
    let cmd = rewrite_command(cli_tree(), &b);
    let completion = find(&cmd, "completion");
    assert_eq!(completion.args[0].default_value.as_deref(), Some("foobar"));
    assert_eq!(completion.args[1].default_value, None);
    assert_eq!(cmd.bin_name.as_deref(), Some("foobar"));
}

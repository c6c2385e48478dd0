//! The interactive presentation style of the CLI: prompt prefix, session
//! banner and terminal title.
use vstd::prelude::*;
use crate::text::{eq_ignoring_ascii_case, equal_ignoring_ascii_case};

verus! {

/// How the interactive CLI presents itself.
#[derive(Clone, Copy, Debug, PartialEq, Eq, Structural)]
pub enum InteractiveStyle {
    Goose,
    Minimal,
}

/// The style named by a configured value: `minimal` in any ASCII case selects
/// the minimal style, anything else the goose style.
pub open spec fn style_named(value: Seq<char>) -> InteractiveStyle {
    if eq_ignoring_ascii_case(value, "minimal"@) {
        InteractiveStyle::Minimal
    } else {
        InteractiveStyle::Goose
    }
}

impl InteractiveStyle {
    /// The text put before the interactive prompt.
    pub open spec fn prompt_prefix_text(self) -> Seq<char> {
        match self {
            InteractiveStyle::Goose => "\u{1FABF} "@,
            InteractiveStyle::Minimal => "> "@,
        }
    }

    /// The three lines of the session banner.
    pub open spec fn banner_text(self) -> Seq<Seq<char>> {
        match self {
            InteractiveStyle::Goose => seq!["  __( O)>"@, " \\____)"@, "   L L"@],
            InteractiveStyle::Minimal => seq![">"@, ""@, ""@],
        }
    }

    /// The prefix of the terminal title; empty for the minimal style.
    pub open spec fn title_prefix_text(self) -> Seq<char> {
        match self {
            InteractiveStyle::Goose => "\u{1FABF}"@,
            InteractiveStyle::Minimal => ""@,
        }
    }

    /// Reads a configured style value; unknown values fall back to the goose
    /// style.
    pub fn from_env(value: &str) -> (r: Self)
        ensures
            r == style_named(value@),
    {
        if equal_ignoring_ascii_case(value, "minimal") {
            InteractiveStyle::Minimal
        } else {
            InteractiveStyle::Goose
        }
    }

    /// The prompt prefix of this style.
    pub fn prompt_prefix(self) -> (r: &'static str)
        ensures
            r@ == self.prompt_prefix_text(),
    {
        match self {
            InteractiveStyle::Goose => "\u{1FABF} ",
            InteractiveStyle::Minimal => "> ",
        }
    }

    /// The session banner of this style, three lines.
    pub fn session_banner_lines(self) -> (r: [&'static str; 3])
        ensures
            r@.len() == 3,
            forall|i: int| 0 <= i < 3 ==> #[trigger] r@[i]@ == self.banner_text()[i],
    {
        match self {
            InteractiveStyle::Goose => ["  __( O)>", " \\____)", "   L L"],
            InteractiveStyle::Minimal => [">", "", ""],
        }
    }

    /// The terminal title prefix of this style.
    pub fn title_prefix(self) -> (r: &'static str)
        ensures
            r@ == self.title_prefix_text(),
    {
        match self {
            InteractiveStyle::Goose => "\u{1FABF}",
            InteractiveStyle::Minimal => "",
        }
    }
}

} // verus!

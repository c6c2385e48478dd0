//! The product brand: every user-visible product noun, alias and prefix of
//! the CLI, with the goose defaults.
use vstd::prelude::*;
use crate::style::{style_named, InteractiveStyle};
use crate::text::{chars_of, push_range, string_of, text_equal, to_uppercase, uppercase_of};

verus! {

pub const DEFAULT_PRODUCT_NAME: &'static str = "goose";

pub const DEFAULT_BINARY_NAME: &'static str = "goose";

pub const DEFAULT_SHELL_ALIAS_PRIMARY: &'static str = "goose";

pub const DEFAULT_SHELL_ALIAS_SHORT: &'static str = "g";

pub const DEFAULT_SHELL_FN_PREFIX: &'static str = "goose";

pub const DEFAULT_DEEPLINK_SCHEME: &'static str = "goose";

pub const DEFAULT_GITHUB_OWNER: &'static str = "aaif-goose";

pub const DEFAULT_GITHUB_REPO: &'static str = "goose";

pub const DEFAULT_AGENT_IDENTITY: &'static str = "You are goose, an AI assistant.";

pub const DEFAULT_INTERACTIVE_STYLE: &'static str = "goose";

/// The branding of one build of the CLI.
pub struct Brand {
    /// Display noun used in user-facing messages (e.g. "goose Version:").
    pub product_name: &'static str,
    /// Compiled binary name, clap root command name, invocation examples.
    pub binary_name: &'static str,
    /// Primary shell alias emitted by `term init` (e.g. `@goose`).
    pub shell_alias_primary: &'static str,
    /// Short shell alias emitted by `term init` (e.g. `@g`).
    pub shell_alias_short: &'static str,
    /// Function/variable prefix used in shell templates.
    pub shell_fn_prefix: &'static str,
    /// URL scheme for recipe deeplinks (e.g. `goose://recipe?...`).
    pub deeplink_scheme: &'static str,
    /// GitHub owner for the update + attestation URLs.
    pub github_owner: &'static str,
    /// GitHub repo for the update + attestation URLs.
    pub github_repo: &'static str,
    /// System prompt used by the provider-configuration smoke test.
    pub agent_identity_sentence: &'static str,
    /// Interactive CLI presentation style (prompt prefix, session banner).
    pub interactive_style: &'static str,
}

/// Values that a build supplies in place of the defaults; `None` keeps the
/// default of that field.
pub struct BrandOverrides {
    pub product_name: Option<&'static str>,
    pub binary_name: Option<&'static str>,
    pub shell_alias_primary: Option<&'static str>,
    pub shell_alias_short: Option<&'static str>,
    pub shell_fn_prefix: Option<&'static str>,
    pub deeplink_scheme: Option<&'static str>,
    pub github_owner: Option<&'static str>,
    pub github_repo: Option<&'static str>,
    pub agent_identity_sentence: Option<&'static str>,
    pub interactive_style: Option<&'static str>,
}

/// The value supplied, or the default.
pub open spec fn or_default(v: Option<&'static str>, default: &'static str) -> &'static str {
    match v {
        Some(x) => x,
        None => default,
    }
}

fn pick(v: Option<&'static str>, default: &'static str) -> (r: &'static str)
    ensures
        r == or_default(v, default),
{
    match v {
        Some(x) => x,
        None => default,
    }
}

/// `s` with its first character replaced by that character's uppercase
/// mapping; the empty text stays empty.
pub open spec fn capitalized(s: Seq<char>) -> Seq<char> {
    if s.len() == 0 {
        Seq::empty()
    } else {
        uppercase_of(s[0]) + s.drop_first()
    }
}

/// Uppercases the first character of `s` (by its full Unicode mapping) and
/// keeps the rest.
pub fn capitalize(s: &str) -> (r: String)
    ensures
        r@ == capitalized(s@),
{
    let cs = chars_of(s);
    if cs.len() == 0 {
        return String::new();
    }
    let mut out = to_uppercase(cs[0]);
    push_range(&mut out, &cs, 1, cs.len());
    assert(cs@.subrange(1, cs@.len() as int) =~= cs@.drop_first());
    string_of(&out)
}

impl Brand {
    /// Every field holds its default value.
    pub open spec fn is_default_brand(&self) -> bool {
        &&& self.product_name@ == DEFAULT_PRODUCT_NAME@
        &&& self.binary_name@ == DEFAULT_BINARY_NAME@
        &&& self.shell_alias_primary@ == DEFAULT_SHELL_ALIAS_PRIMARY@
        &&& self.shell_alias_short@ == DEFAULT_SHELL_ALIAS_SHORT@
        &&& self.shell_fn_prefix@ == DEFAULT_SHELL_FN_PREFIX@
        &&& self.deeplink_scheme@ == DEFAULT_DEEPLINK_SCHEME@
        &&& self.github_owner@ == DEFAULT_GITHUB_OWNER@
        &&& self.github_repo@ == DEFAULT_GITHUB_REPO@
        &&& self.agent_identity_sentence@ == DEFAULT_AGENT_IDENTITY@
        &&& self.interactive_style@ == DEFAULT_INTERACTIVE_STYLE@
    }

    /// The style that the brand's `interactive_style` value selects.
    pub open spec fn style(&self) -> InteractiveStyle {
        style_named(self.interactive_style@)
    }

    /// The default brand: every field at its goose default. The brand of a
    /// build is `from_overrides` of the values that build sets.
    pub fn default_brand() -> (r: &'static Brand)
        ensures
            r.product_name == DEFAULT_PRODUCT_NAME,
            r.binary_name == DEFAULT_BINARY_NAME,
            r.shell_alias_primary == DEFAULT_SHELL_ALIAS_PRIMARY,
            r.shell_alias_short == DEFAULT_SHELL_ALIAS_SHORT,
            r.shell_fn_prefix == DEFAULT_SHELL_FN_PREFIX,
            r.deeplink_scheme == DEFAULT_DEEPLINK_SCHEME,
            r.github_owner == DEFAULT_GITHUB_OWNER,
            r.github_repo == DEFAULT_GITHUB_REPO,
            r.agent_identity_sentence == DEFAULT_AGENT_IDENTITY,
            r.interactive_style == DEFAULT_INTERACTIVE_STYLE,
    {
        &Brand {
            product_name: DEFAULT_PRODUCT_NAME,
            binary_name: DEFAULT_BINARY_NAME,
            shell_alias_primary: DEFAULT_SHELL_ALIAS_PRIMARY,
            shell_alias_short: DEFAULT_SHELL_ALIAS_SHORT,
            shell_fn_prefix: DEFAULT_SHELL_FN_PREFIX,
            deeplink_scheme: DEFAULT_DEEPLINK_SCHEME,
            github_owner: DEFAULT_GITHUB_OWNER,
            github_repo: DEFAULT_GITHUB_REPO,
            agent_identity_sentence: DEFAULT_AGENT_IDENTITY,
            interactive_style: DEFAULT_INTERACTIVE_STYLE,
        }
    }

    /// The brand that a build's overrides select: each field takes the value
    /// supplied for it, or its default.
    pub fn from_overrides(o: &BrandOverrides) -> (r: Brand)
        ensures
            r.product_name == or_default(o.product_name, DEFAULT_PRODUCT_NAME),
            r.binary_name == or_default(o.binary_name, DEFAULT_BINARY_NAME),
            r.shell_alias_primary == or_default(o.shell_alias_primary, DEFAULT_SHELL_ALIAS_PRIMARY),
            r.shell_alias_short == or_default(o.shell_alias_short, DEFAULT_SHELL_ALIAS_SHORT),
            r.shell_fn_prefix == or_default(o.shell_fn_prefix, DEFAULT_SHELL_FN_PREFIX),
            r.deeplink_scheme == or_default(o.deeplink_scheme, DEFAULT_DEEPLINK_SCHEME),
            r.github_owner == or_default(o.github_owner, DEFAULT_GITHUB_OWNER),
            r.github_repo == or_default(o.github_repo, DEFAULT_GITHUB_REPO),
            r.agent_identity_sentence == or_default(o.agent_identity_sentence, DEFAULT_AGENT_IDENTITY),
            r.interactive_style == or_default(o.interactive_style, DEFAULT_INTERACTIVE_STYLE),
    {
        Brand {
            product_name: pick(o.product_name, DEFAULT_PRODUCT_NAME),
            binary_name: pick(o.binary_name, DEFAULT_BINARY_NAME),
            shell_alias_primary: pick(o.shell_alias_primary, DEFAULT_SHELL_ALIAS_PRIMARY),
            shell_alias_short: pick(o.shell_alias_short, DEFAULT_SHELL_ALIAS_SHORT),
            shell_fn_prefix: pick(o.shell_fn_prefix, DEFAULT_SHELL_FN_PREFIX),
            deeplink_scheme: pick(o.deeplink_scheme, DEFAULT_DEEPLINK_SCHEME),
            github_owner: pick(o.github_owner, DEFAULT_GITHUB_OWNER),
            github_repo: pick(o.github_repo, DEFAULT_GITHUB_REPO),
            agent_identity_sentence: pick(o.agent_identity_sentence, DEFAULT_AGENT_IDENTITY),
            interactive_style: pick(o.interactive_style, DEFAULT_INTERACTIVE_STYLE),
        }
    }

    /// Whether every field holds its default value.
    pub fn is_default(&self) -> (r: bool)
        ensures
            r == self.is_default_brand(),
    {
        text_equal(self.product_name, DEFAULT_PRODUCT_NAME)
            && text_equal(self.binary_name, DEFAULT_BINARY_NAME)
            && text_equal(self.shell_alias_primary, DEFAULT_SHELL_ALIAS_PRIMARY)
            && text_equal(self.shell_alias_short, DEFAULT_SHELL_ALIAS_SHORT)
            && text_equal(self.shell_fn_prefix, DEFAULT_SHELL_FN_PREFIX)
            && text_equal(self.deeplink_scheme, DEFAULT_DEEPLINK_SCHEME)
            && text_equal(self.github_owner, DEFAULT_GITHUB_OWNER)
            && text_equal(self.github_repo, DEFAULT_GITHUB_REPO)
            && text_equal(self.agent_identity_sentence, DEFAULT_AGENT_IDENTITY)
            && text_equal(self.interactive_style, DEFAULT_INTERACTIVE_STYLE)
    }

    /// The product name with its first character uppercased.
    pub fn product_name_cap(&self) -> (r: String)
        ensures
            r@ == capitalized(self.product_name@),
    {
        capitalize(self.product_name)
    }

    /// The interactive style that the brand selects.
    pub fn interactive_style_kind(&self) -> (r: InteractiveStyle)
        ensures
            r == self.style(),
    {
        InteractiveStyle::from_env(self.interactive_style)
    }

    /// The prompt prefix of the brand's style.
    pub fn interactive_prefix(&self) -> (r: &'static str)
        ensures
            r@ == self.style().prompt_prefix_text(),
    {
        self.interactive_style_kind().prompt_prefix()
    }

    /// The session banner of the brand's style.
    pub fn session_banner_lines(&self) -> (r: [&'static str; 3])
        ensures
            r@.len() == 3,
            forall|i: int| 0 <= i < 3 ==> #[trigger] r@[i]@ == self.style().banner_text()[i],
    {
        self.interactive_style_kind().session_banner_lines()
    }

    /// The terminal title prefix: the style's prefix, or, where the style has
    /// none, the capitalized product name.
    pub fn terminal_title_prefix(&self) -> (r: String)
        ensures
            r@ == match self.style() {
                InteractiveStyle::Goose => "\u{1FABF}"@,
                InteractiveStyle::Minimal => capitalized(self.product_name@),
            },
    {
        let prefix = self.interactive_style_kind().title_prefix();
        proof {
            reveal_strlit("\u{1FABF}");
            reveal_strlit("");
        }
        if prefix.is_empty() {
            self.product_name_cap()
        } else {
            prefix.to_owned()
        }
    }
}

} // verus!

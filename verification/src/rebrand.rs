//! Rewriting the default product nouns of a help text to a brand's own.
use vstd::prelude::*;
use crate::brand::{capitalized, Brand, DEFAULT_BINARY_NAME, DEFAULT_PRODUCT_NAME};
use crate::phrase::{aliases_replaced, replace_standalone_chars, replace_whole_alias, standalone_replaced};
use crate::text::{chars_of, push_all, replace_all, replaced, string_of};

verus! {

/// Stands in for `@<primary alias>` while the product nouns are rewritten.
pub const ALIAS_PRIMARY_PLACEHOLDER: &'static str = "__BRAND_ALIAS_PRIMARY__";

/// Stands in for `@<short alias>` while the product nouns are rewritten.
pub const ALIAS_SHORT_PLACEHOLDER: &'static str = "__BRAND_ALIAS_SHORT__";

/// `<name> term`, the way a CLI invocation of the `term` command starts.
pub open spec fn term_invocation(name: Seq<char>) -> Seq<char> {
    name + " term"@
}

/// `s` with each standalone `goose term` invocation naming the brand's binary.
pub open spec fn cli_invocations_rewritten(s: Seq<char>, b: Brand) -> Seq<char> {
    standalone_replaced(s, term_invocation(DEFAULT_BINARY_NAME@), term_invocation(b.binary_name@))
}

/// `s` rebranded: the whole shell aliases `@goose` and `@g` (not followed
/// by an identifier character) become the brand's aliases, `goose term` invocations and the `goose-channel` name use the
/// binary name, and the standalone nouns `Goose` and `goose` become the
/// capitalized and the plain product name. The aliases are parked under
/// placeholders meanwhile, so that the noun rewriting does not touch them.
pub open spec fn rebranded(s: Seq<char>, b: Brand) -> Seq<char> {
    let parked = aliases_replaced(
        aliases_replaced(s, "@goose"@, ALIAS_PRIMARY_PLACEHOLDER@),
        "@g"@,
        ALIAS_SHORT_PLACEHOLDER@,
    );
    let invocations = cli_invocations_rewritten(parked, b);
    let channel = standalone_replaced(invocations, "goose-channel"@, b.binary_name@ + "-channel"@);
    let display = standalone_replaced(channel, "Goose"@, capitalized(b.product_name@));
    let nouns = standalone_replaced(display, DEFAULT_PRODUCT_NAME@, b.product_name@);
    replaced(
        replaced(nouns, ALIAS_PRIMARY_PLACEHOLDER@, "@"@ + b.shell_alias_primary@),
        ALIAS_SHORT_PLACEHOLDER@,
        "@"@ + b.shell_alias_short@,
    )
}

/// The characters of `a` followed by those of `b`.
fn joined(a: &str, b: &str) -> (r: Vec<char>)
    ensures
        r@ == a@ + b@,
{
    let mut r = chars_of(a);
    let tail = chars_of(b);
    push_all(&mut r, &tail);
    r
}

fn rewrite_cli_invocation_chars(s: &Vec<char>, b: &Brand) -> (r: Vec<char>)
    ensures
        r@ == cli_invocations_rewritten(s@, *b),
{
    let needle = joined(DEFAULT_BINARY_NAME, " term");
    let replacement = joined(b.binary_name, " term");
    proof {
        reveal_strlit(" term");
    }
    replace_standalone_chars(s, &needle, &replacement)
}

/// Points each standalone `goose term` invocation in `s` at the brand's binary.
pub fn rewrite_cli_invocations(s: &str, b: &Brand) -> (r: String)
    ensures
        r@ == cli_invocations_rewritten(s@, *b),
{
    let cs = chars_of(s);
    let out = rewrite_cli_invocation_chars(&cs, b);
    string_of(&out)
}

/// Rewrites the default product nouns of `s` to the brand's: display phrases
/// use the product name, explicit CLI invocations the binary name, and whole
/// shell aliases (`@goose`, `@g` not followed by an identifier character) the
/// brand's aliases.
pub fn rebrand_str(s: &str, b: &Brand) -> (r: String)
    ensures
        r@ == rebranded(s@, *b),
{
    proof {
        reveal_strlit("@goose");
        reveal_strlit("@g");
        reveal_strlit("goose-channel");
        reveal_strlit("Goose");
        reveal_strlit("goose");
        reveal_strlit("__BRAND_ALIAS_PRIMARY__");
        reveal_strlit("__BRAND_ALIAS_SHORT__");
    }
    let product_cap = b.product_name_cap();
    let primary_placeholder = chars_of(ALIAS_PRIMARY_PLACEHOLDER);
    let short_placeholder = chars_of(ALIAS_SHORT_PLACEHOLDER);
    let alias_primary = joined("@", b.shell_alias_primary);
    let alias_short = joined("@", b.shell_alias_short);

    let cs = chars_of(s);
    let parked = replace_whole_alias(&cs, &chars_of("@goose"), &primary_placeholder);
    let parked = replace_whole_alias(&parked, &chars_of("@g"), &short_placeholder);
    let rewritten = rewrite_cli_invocation_chars(&parked, b);
    let rewritten = replace_standalone_chars(
        &rewritten,
        &chars_of("goose-channel"),
        &joined(b.binary_name, "-channel"),
    );
    let rewritten = replace_standalone_chars(
        &rewritten,
        &chars_of("Goose"),
        &chars_of(product_cap.as_str()),
    );
    let rewritten = replace_standalone_chars(
        &rewritten,
        &chars_of(DEFAULT_PRODUCT_NAME),
        &chars_of(b.product_name),
    );
    let restored = replace_all(&rewritten, &primary_placeholder, &alias_primary);
    let restored = replace_all(&restored, &short_placeholder, &alias_short);
    string_of(&restored)
}

} // verus!

//! What the branding operations are for, stated over all inputs.
use vstd::prelude::*;
use crate::brand::{capitalized, Brand, DEFAULT_BINARY_NAME, DEFAULT_PRODUCT_NAME};
use crate::help::{command_rewritten, opt_text, CommandHelp};
use crate::manifest::{before_comment, bin_names_of, line_step, trimmed};
use crate::phrase::{
    aliases_replaced, aliases_replaced_from, rebrand_boundary, standalone_at, standalone_replace_without_match,
    standalone_replaced, standalone_replaced_from, whole_alias_at,
};
use crate::rebrand::{rebranded, term_invocation, ALIAS_PRIMARY_PLACEHOLDER, ALIAS_SHORT_PLACEHOLDER};
use crate::text::{alphanumeric, ascii_alphanumeric, occurs_at, replace_without_match, replaced};

verus! {

/// A brand is the default one exactly when all ten of its fields hold the
/// goose defaults; a brand that differs in any field, the product name
/// alone included, is not.
pub proof fn default_brand_is_all_goose_fields(b: Brand)
    ensures
        b.is_default_brand() <==> {
            &&& b.product_name@ == "goose"@
            &&& b.binary_name@ == "goose"@
            &&& b.shell_alias_primary@ == "goose"@
            &&& b.shell_alias_short@ == "g"@
            &&& b.shell_fn_prefix@ == "goose"@
            &&& b.deeplink_scheme@ == "goose"@
            &&& b.github_owner@ == "aaif-goose"@
            &&& b.github_repo@ == "goose"@
            &&& b.agent_identity_sentence@ == "You are goose, an AI assistant."@
            &&& b.interactive_style@ == "goose"@
        },
{
}

/// Under a rewrite, the `bin_name` argument of a command named `completion`
/// defaults to the brand's binary name, whatever default it had before.
pub proof fn completion_bin_name_defaults_to_binary(old: CommandHelp, new: CommandHelp, b: Brand)
    requires
        command_rewritten(old, new, b),
        old.name@ == "completion"@,
    ensures
        forall|i: int|
            0 <= i < new.args@.len() && (#[trigger] new.args@[i]).id@ == "bin_name"@
                ==> opt_text(new.args@[i].default_value) == Some(b.binary_name@),
{
    reveal_strlit("completion");
    reveal_strlit("goose");
    assert("completion"@.len() != "goose"@.len());
    assert(old.name@ != "goose"@);
    assert forall|i: int|
        0 <= i < new.args@.len() && (#[trigger] new.args@[i]).id@ == "bin_name"@
            implies opt_text(new.args@[i].default_value) == Some(b.binary_name@) by {
        assert(crate::help::arg_rewritten(old.args@[i], new.args@[i], b, true));
    }
}

/// Every character that is neither alphanumeric nor `-` nor `_` is a word
/// boundary, among them all ASCII characters other than letters, digits,
/// `-` and `_` (space, `'`, `.`, `,`, ...); those three kinds are not; and
/// the edge of the text is one.
pub proof fn boundary_characters(c: char)
    ensures
        rebrand_boundary(None),
        !alphanumeric(c) && c != '-' && c != '_' ==> rebrand_boundary(Some(c)),
        (c as u32) < 128 && !ascii_alphanumeric(c) && c != '-' && c != '_' ==> rebrand_boundary(Some(c)),
        alphanumeric(c) || c == '-' || c == '_' ==> !rebrand_boundary(Some(c)),
{
}

/// A needle of letters and digits standing between two boundary characters
/// is replaced: `c1 needle c2` becomes `c1 replacement c2`.
pub proof fn needle_between_boundaries_is_replaced(c1: char, needle: Seq<char>, replacement: Seq<char>, c2: char)
    requires
        needle.len() > 0,
        forall|k: int| 0 <= k < needle.len() ==> alphanumeric(#[trigger] needle[k]),
        rebrand_boundary(Some(c1)),
        rebrand_boundary(Some(c2)),
    ensures
        standalone_replaced(seq![c1] + needle + seq![c2], needle, replacement)
            == seq![c1] + replacement + seq![c2],
{
    let s = seq![c1] + needle + seq![c2];
    let n: int = needle.len() as int;
    assert(s[0] == c1);
    assert(!occurs_at(s, needle, 0)) by {
        if occurs_at(s, needle, 0) {
            assert(s.subrange(0, n as int)[0] == s[0]);
        }
    }
    assert(s.subrange(1, n + 1) =~= needle);
    assert(s[n + 1] == c2);
    assert(standalone_replaced_from(s, needle, replacement, (n + 1) as nat) =~= seq![c2]) by {
        if occurs_at(s, needle, n + 1) {
            assert(s.subrange(n + 1, n + 1 + n)[0] == s[n + 1]);
        }
        assert(standalone_replaced_from(s, needle, replacement, (n + 2) as nat) =~= Seq::<char>::empty());
    }
    assert(standalone_replaced_from(s, needle, replacement, 1) =~= replacement + seq![c2]);
    assert(standalone_replaced(s, needle, replacement) =~= seq![c1] + replacement + seq![c2]);
}

/// With no `[[bin]]` section open, lines none of which is `[[bin]]` give no
/// names.
proof fn closed_section_gives_nothing(lines: Seq<Seq<char>>)
    requires
        forall|k: int| 0 <= k < lines.len() ==> trimmed(before_comment(#[trigger] lines[k])) != "[[bin]]"@,
    ensures
        bin_names_of(lines, false) == Seq::<Seq<char>>::empty(),
    decreases lines.len(),
{
    if lines.len() > 0 {
        let rest = lines.drop_first();
        assert forall|k: int| 0 <= k < rest.len() implies trimmed(before_comment(#[trigger] rest[k])) != "[[bin]]"@ by {
            assert(rest[k] == lines[k + 1]);
        }
        closed_section_gives_nothing(rest);
        assert(trimmed(before_comment(lines[0])) != "[[bin]]"@);
        assert(line_step(lines[0], false) == (false, Option::<Seq<char>>::None));
    }
}

/// A section header other than `[[bin]]` (a trimmed, comment-free line that
/// starts with `[`, `[[test]]` among them) closes the bin section: no name
/// is reported after it until the next `[[bin]]` line.
pub proof fn other_header_closes_bin_section(lines: Seq<Seq<char>>, in_bin: bool)
    requires
        lines.len() > 0,
        trimmed(before_comment(lines[0])).len() > 0,
        trimmed(before_comment(lines[0]))[0] == '[',
        trimmed(before_comment(lines[0])) != "[[bin]]"@,
        forall|k: int| 1 <= k < lines.len() ==> trimmed(before_comment(#[trigger] lines[k])) != "[[bin]]"@,
    ensures
        bin_names_of(lines, in_bin) == Seq::<Seq<char>>::empty(),
{
    let rest = lines.drop_first();
    assert forall|k: int| 0 <= k < rest.len() implies trimmed(before_comment(#[trigger] rest[k])) != "[[bin]]"@ by {
        assert(rest[k] == lines[k + 1]);
    }
    closed_section_gives_nothing(rest);
    assert(line_step(lines[0], in_bin) == (false, Option::<Seq<char>>::None));
}

/// `c` does not occur in `s`.
pub open spec fn lacks(s: Seq<char>, c: char) -> bool {
    forall|k: int| 0 <= k < s.len() ==> #[trigger] s[k] != c
}

/// A text without the first character of a non-empty pattern holds no
/// occurrence of it.
proof fn lacking_first_char_no_occurrence(s: Seq<char>, n: Seq<char>)
    requires
        n.len() > 0,
        lacks(s, n[0]),
    ensures
        forall|k: int| !occurs_at(s, n, k),
{
    assert forall|k: int| !occurs_at(s, n, k) by {
        if occurs_at(s, n, k) {
            assert(s.subrange(k, k + n.len())[0] == s[k]);
        }
    }
}

/// A text without `@` holds no whole alias, so parking leaves it as it is.
proof fn parking_without_at(s: Seq<char>, alias: Seq<char>, placeholder: Seq<char>, i: nat)
    requires
        alias.len() > 0,
        alias[0] == '@',
        lacks(s, '@'),
        i <= s.len(),
    ensures
        aliases_replaced_from(s, alias, placeholder, i) == s.subrange(i as int, s.len() as int),
    decreases s.len() - i,
{
    if i < s.len() {
        parking_without_at(s, alias, placeholder, i + 1);
        if whole_alias_at(s, alias, i as int) {
            assert(s.subrange(i as int, (i + alias.len()) as int)[0] == s[i as int]);
        }
        assert(s.subrange(i as int, s.len() as int) =~= seq![s[i as int]] + s.subrange(
            (i + 1) as int,
            s.len() as int,
        ));
    } else {
        assert(s.subrange(i as int, s.len() as int) =~= Seq::<char>::empty());
    }
}

/// A standalone replacement of a phrase that does not occur changes nothing.
proof fn standalone_without_occurrence(s: Seq<char>, n: Seq<char>, r: Seq<char>)
    requires
        forall|k: int| !occurs_at(s, n, k),
    ensures
        standalone_replaced(s, n, r) == s,
{
    standalone_replace_without_match(s, n, r, 0);
    assert(s.subrange(0, s.len() as int) =~= s);
}

/// The text through the parking and the binary-name steps of rebranding,
/// for a text without `@` and without the lowercase noun `goose`: it comes
/// through unchanged.
proof fn binary_steps_leave_text(s: Seq<char>, b: Brand)
    requires
        lacks(s, '@'),
        forall|k: int| !occurs_at(s, "goose"@, k),
    ensures
        standalone_replaced(
            crate::rebrand::cli_invocations_rewritten(
                aliases_replaced(
                    aliases_replaced(s, "@goose"@, ALIAS_PRIMARY_PLACEHOLDER@),
                    "@g"@,
                    ALIAS_SHORT_PLACEHOLDER@,
                ),
                b,
            ),
            "goose-channel"@,
            b.binary_name@ + "-channel"@,
        ) == s,
{
    reveal_strlit("@goose");
    reveal_strlit("@g");
    reveal_strlit("goose");
    reveal_strlit(" term");
    reveal_strlit("goose-channel");
    parking_without_at(s, "@goose"@, ALIAS_PRIMARY_PLACEHOLDER@, 0);
    assert(s.subrange(0, s.len() as int) =~= s);
    parking_without_at(s, "@g"@, ALIAS_SHORT_PLACEHOLDER@, 0);
    let inv = term_invocation(DEFAULT_BINARY_NAME@);
    assert forall|k: int| !occurs_at(s, inv, k) by {
        if occurs_at(s, inv, k) {
            assert(s.subrange(k, k + 5) =~= s.subrange(k, k + inv.len()).subrange(0, 5));
            assert(inv.subrange(0, 5) =~= "goose"@);
            assert(occurs_at(s, "goose"@, k));
        }
    }
    standalone_without_occurrence(s, inv, term_invocation(b.binary_name@));
    assert forall|k: int| !occurs_at(s, "goose-channel"@, k) by {
        if occurs_at(s, "goose-channel"@, k) {
            assert(s.subrange(k, k + 5) =~= s.subrange(k, k + 13).subrange(0, 5));
            assert("goose-channel"@.subrange(0, 5) =~= "goose"@);
            assert(occurs_at(s, "goose"@, k));
        }
    }
    standalone_without_occurrence(s, "goose-channel"@, b.binary_name@ + "-channel"@);
}

/// The display noun does not depend on the binary name: for a text without
/// `@` and without the lowercase noun `goose` (where the binary name is
/// used), two brands that differ only in the binary name rebrand it alike;
/// the `Goose` in it takes the capitalized product name of either.
pub proof fn display_noun_ignores_binary_name(s: Seq<char>, b1: Brand, b2: Brand)
    requires
        lacks(s, '@'),
        forall|k: int| !occurs_at(s, "goose"@, k),
        b1.product_name@ == b2.product_name@,
        b1.shell_alias_primary@ == b2.shell_alias_primary@,
        b1.shell_alias_short@ == b2.shell_alias_short@,
    ensures
        rebranded(s, b1) == rebranded(s, b2),
{
    binary_steps_leave_text(s, b1);
    binary_steps_leave_text(s, b2);
}

/// A character of plain prose: an ASCII letter or digit other than `g` and
/// `G`, a space, `.` or `,`.
pub open spec fn plain_char(c: char) -> bool {
    &&& ('a' <= c && c <= 'z') || ('A' <= c && c <= 'Z') || ('0' <= c && c <= '9') || c == ' ' || c == '.'
        || c == ','
    &&& c != 'g'
    &&& c != 'G'
}

/// Text made of plain characters only.
pub open spec fn plain(t: Seq<char>) -> bool {
    forall|k: int| 0 <= k < t.len() ==> plain_char(#[trigger] t[k])
}

/// The standalone scan copies a stretch that holds no standalone occurrence.
proof fn standalone_copies(s: Seq<char>, n: Seq<char>, r: Seq<char>, a: nat, b: nat)
    requires
        a <= b <= s.len(),
        forall|j: int| a <= j < b ==> !standalone_at(s, n, j),
    ensures
        standalone_replaced_from(s, n, r, a) == s.subrange(a as int, b as int) + standalone_replaced_from(s, n, r, b),
    decreases b - a,
{
    if a < b {
        standalone_copies(s, n, r, a + 1, b);
        assert(s.subrange(a as int, b as int) =~= seq![s[a as int]] + s.subrange((a + 1) as int, b as int));
    } else {
        assert(s.subrange(a as int, b as int) =~= Seq::<char>::empty());
    }
}

/// The capitalized form of a plain name is made of ASCII letters, digits,
/// spaces, `.` and `,`, without `g`.
proof fn capitalized_plain(name: Seq<char>)
    requires
        plain(name),
    ensures
        lacks(capitalized(name), 'g'),
        lacks(capitalized(name), '_'),
        lacks(capitalized(name), '@'),
        capitalized(name).len() == name.len(),
{
    if name.len() > 0 {
        let c = name[0];
        assert(plain_char(c));
        assert((c as u32) < 128);
        let u = crate::text::ascii_uppercase_of(c);
        assert(u != 'g' && u != '_' && u != '@');
        let cap = capitalized(name);
        assert(cap =~= seq![u] + name.drop_first());
        assert forall|k: int| 0 <= k < cap.len() implies #[trigger] cap[k] != 'g' && cap[k] != '_' && cap[k] != '@' by {
            if k > 0 {
                assert(cap[k] == name[k]);
                assert(plain_char(name[k]));
            }
        }
    }
}

/// The display noun takes the product name: between plain words, a
/// standalone `Goose` becomes the capitalized product name of the brand
/// (whatever its binary name), and nothing else changes, for a product
/// name written in plain characters.
pub proof fn display_noun_takes_product_name(p: Seq<char>, q: Seq<char>, b: Brand)
    requires
        plain(p),
        plain(q),
        plain(b.product_name@),
    ensures
        rebranded(p + " Goose "@ + q, b) == p + " "@ + capitalized(b.product_name@) + " "@ + q,
{
    reveal_strlit(" Goose ");
    reveal_strlit(" ");
    reveal_strlit("Goose");
    reveal_strlit("goose");
    reveal_strlit("__BRAND_ALIAS_PRIMARY__");
    reveal_strlit("__BRAND_ALIAS_SHORT__");
    let s = p + " Goose "@ + q;
    let g: int = p.len() as int + 1;
    assert forall|k: int| 0 <= k < s.len() implies #[trigger] s[k] != '@' && s[k] != 'g' && s[k] != '_'
        && (s[k] == 'G' ==> k == g) by {
        if k < p.len() {
            assert(s[k] == p[k]);
            assert(plain_char(p[k]));
        } else if k < p.len() + 7 {
            assert(s[k] == " Goose "@[k - p.len()]);
        } else {
            assert(s[k] == q[k - p.len() - 7]);
            assert(plain_char(q[k - p.len() - 7]));
        }
    }
    lacking_first_char_no_occurrence(s, "goose"@);
    binary_steps_leave_text(s, b);

    let cap = capitalized(b.product_name@);
    capitalized_plain(b.product_name@);
    assert forall|j: int| 0 <= j < g implies !standalone_at(s, "Goose"@, j) by {
        if occurs_at(s, "Goose"@, j) {
            assert(s.subrange(j, j + 5)[0] == s[j]);
        }
    }
    standalone_copies(s, "Goose"@, cap, 0, g as nat);
    assert(s.subrange(g, g + 5) =~= "Goose"@);
    assert(s[g - 1] == ' ');
    assert(s[g + 5] == ' ');
    assert(standalone_at(s, "Goose"@, g));
    assert forall|j: int| g + 5 <= j < s.len() implies !standalone_at(s, "Goose"@, j) by {
        if occurs_at(s, "Goose"@, j) {
            assert(s.subrange(j, j + 5)[0] == s[j]);
        }
    }
    standalone_replace_without_match(s, "Goose"@, cap, (g + 5) as nat);
    let display = p + " "@ + cap + " "@ + q;
    assert(s.subrange(0, g) =~= p + " "@);
    assert(s.subrange(g + 5, s.len() as int) =~= " "@ + q);
    assert(standalone_replaced(s, "Goose"@, cap) =~= display);

    assert forall|k: int| 0 <= k < display.len() implies #[trigger] display[k] != 'g' && display[k] != '_' by {
        if k < p.len() {
            assert(display[k] == p[k]);
            assert(plain_char(p[k]));
        } else if k == p.len() {
        } else if k < p.len() + 1 + cap.len() {
            assert(display[k] == cap[k - p.len() - 1]);
        } else if k == p.len() + 1 + cap.len() {
        } else {
            assert(display[k] == q[k - p.len() - 2 - cap.len()]);
            assert(plain_char(q[k - p.len() - 2 - cap.len()]));
        }
    }
    lacking_first_char_no_occurrence(display, DEFAULT_PRODUCT_NAME@);
    standalone_without_occurrence(display, DEFAULT_PRODUCT_NAME@, b.product_name@);
    lacking_first_char_no_occurrence(display, ALIAS_PRIMARY_PLACEHOLDER@);
    replace_without_match(display, ALIAS_PRIMARY_PLACEHOLDER@, "@"@ + b.shell_alias_primary@, 0);
    assert(display.subrange(0, display.len() as int) =~= display);
    lacking_first_char_no_occurrence(display, ALIAS_SHORT_PLACEHOLDER@);
    replace_without_match(display, ALIAS_SHORT_PLACEHOLDER@, "@"@ + b.shell_alias_short@, 0);
}

/// For a text that holds neither `G`, `g` nor `_` (and no `@`), the noun
/// and the restoring steps of rebranding change nothing.
proof fn noun_steps_leave_text(t: Seq<char>, b: Brand)
    requires
        forall|k: int| 0 <= k < t.len() ==> #[trigger] t[k] != 'g' && t[k] != 'G' && t[k] != '_',
    ensures
        replaced(
            replaced(
                standalone_replaced(
                    standalone_replaced(t, "Goose"@, capitalized(b.product_name@)),
                    DEFAULT_PRODUCT_NAME@,
                    b.product_name@,
                ),
                ALIAS_PRIMARY_PLACEHOLDER@,
                "@"@ + b.shell_alias_primary@,
            ),
            ALIAS_SHORT_PLACEHOLDER@,
            "@"@ + b.shell_alias_short@,
        ) == t,
{
    reveal_strlit("Goose");
    reveal_strlit("goose");
    reveal_strlit("__BRAND_ALIAS_PRIMARY__");
    reveal_strlit("__BRAND_ALIAS_SHORT__");
    lacking_first_char_no_occurrence(t, "Goose"@);
    standalone_without_occurrence(t, "Goose"@, capitalized(b.product_name@));
    lacking_first_char_no_occurrence(t, DEFAULT_PRODUCT_NAME@);
    standalone_without_occurrence(t, DEFAULT_PRODUCT_NAME@, b.product_name@);
    assert(t.subrange(0, t.len() as int) =~= t);
    lacking_first_char_no_occurrence(t, ALIAS_PRIMARY_PLACEHOLDER@);
    replace_without_match(t, ALIAS_PRIMARY_PLACEHOLDER@, "@"@ + b.shell_alias_primary@, 0);
    lacking_first_char_no_occurrence(t, ALIAS_SHORT_PLACEHOLDER@);
    replace_without_match(t, ALIAS_SHORT_PLACEHOLDER@, "@"@ + b.shell_alias_short@, 0);
}

/// Replaces a standalone phrase that stands once, right after `p `, in a
/// text whose other positions cannot start it.
proof fn single_standalone_replaced(p: Seq<char>, n: Seq<char>, q: Seq<char>, r: Seq<char>)
    requires
        n.len() > 0,
        lacks(p, n[0]),
        lacks(q, n[0]),
        forall|k: int| 1 <= k < n.len() ==> #[trigger] n[k] != n[0],
        n[0] != ' ',
    ensures
        standalone_replaced(p + " "@ + n + " "@ + q, n, r) == p + " "@ + r + " "@ + q,
{
    reveal_strlit(" ");
    let s = p + " "@ + n + " "@ + q;
    let g: int = p.len() as int + 1;
    let e: int = g + n.len();
    assert forall|k: int| 0 <= k < s.len() && s[k] == n[0] implies k == g by {
        if k < p.len() {
            assert(s[k] == p[k]);
        } else if k == p.len() {
        } else if k < e {
            assert(s[k] == n[k - g]);
        } else if k == e {
        } else {
            assert(s[k] == q[k - e - 1]);
        }
    }
    assert forall|j: int| 0 <= j < g implies !standalone_at(s, n, j) by {
        if occurs_at(s, n, j) {
            assert(s.subrange(j, j + n.len())[0] == s[j]);
        }
    }
    standalone_copies(s, n, r, 0, g as nat);
    assert(s.subrange(g, e) =~= n);
    assert(s[g - 1] == ' ');
    assert(s[e] == ' ');
    assert(standalone_at(s, n, g));
    assert forall|j: int| e <= j < s.len() implies !standalone_at(s, n, j) by {
        if occurs_at(s, n, j) {
            assert(s.subrange(j, j + n.len())[0] == s[j]);
        }
    }
    standalone_replace_without_match(s, n, r, e as nat);
    assert(s.subrange(0, g) =~= p + " "@);
    assert(s.subrange(e, s.len() as int) =~= " "@ + q);
    assert(standalone_replaced(s, n, r) =~= p + " "@ + r + " "@ + q);
}

/// `goose term` invocations take the binary name: between plain words,
/// `goose term` becomes `<binary name> term` (whatever the product name),
/// and nothing else changes, for a binary name written in plain characters.
pub proof fn invocation_takes_binary_name(p: Seq<char>, q: Seq<char>, b: Brand)
    requires
        plain(p),
        plain(q),
        plain(b.binary_name@),
    ensures
        rebranded(p + " goose term "@ + q, b) == p + " "@ + b.binary_name@ + " term "@ + q,
{
    reveal_strlit(" goose term ");
    reveal_strlit("goose term");
    reveal_strlit(" term");
    reveal_strlit(" term ");
    reveal_strlit(" ");
    reveal_strlit("goose");
    reveal_strlit("@goose");
    reveal_strlit("@g");
    reveal_strlit("goose-channel");
    let n = term_invocation(DEFAULT_BINARY_NAME@);
    assert(n =~= "goose term"@);
    let s = p + " goose term "@ + q;
    assert(s =~= p + " "@ + n + " "@ + q);
    assert forall|k: int| 0 <= k < s.len() implies #[trigger] s[k] != '@' by {
        if k < p.len() {
            assert(s[k] == p[k]);
            assert(plain_char(p[k]));
        } else if k < p.len() + 12 {
            assert(s[k] == " goose term "@[k - p.len()]);
        } else {
            assert(s[k] == q[k - p.len() - 12]);
            assert(plain_char(q[k - p.len() - 12]));
        }
    }
    parking_without_at(s, "@goose"@, ALIAS_PRIMARY_PLACEHOLDER@, 0);
    assert(s.subrange(0, s.len() as int) =~= s);
    parking_without_at(s, "@g"@, ALIAS_SHORT_PLACEHOLDER@, 0);
    assert forall|k: int| 0 <= k < p.len() implies #[trigger] p[k] != 'g' by { assert(plain_char(p[k])); }
    assert forall|k: int| 0 <= k < q.len() implies #[trigger] q[k] != 'g' by { assert(plain_char(q[k])); }
    let r = term_invocation(b.binary_name@);
    single_standalone_replaced(p, n, q, r);
    let t = p + " "@ + r + " "@ + q;
    assert(t =~= p + " "@ + b.binary_name@ + " term "@ + q);
    assert forall|k: int| 0 <= k < t.len() implies #[trigger] t[k] != 'g' && t[k] != 'G' && t[k] != '_' by {
        if k < p.len() {
            assert(t[k] == p[k]);
            assert(plain_char(p[k]));
        } else if k == p.len() {
        } else if k < p.len() + 1 + b.binary_name@.len() {
            assert(t[k] == b.binary_name@[k - p.len() - 1]);
            assert(plain_char(b.binary_name@[k - p.len() - 1]));
        } else if k < p.len() + 1 + b.binary_name@.len() + 6 {
            assert(t[k] == " term "@[k - p.len() - 1 - b.binary_name@.len()]);
        } else {
            assert(t[k] == q[k - p.len() - 7 - b.binary_name@.len()]);
            assert(plain_char(q[k - p.len() - 7 - b.binary_name@.len()]));
        }
    }
    lacking_first_char_no_occurrence(t, "goose-channel"@);
    standalone_without_occurrence(t, "goose-channel"@, b.binary_name@ + "-channel"@);
    noun_steps_leave_text(t, b);
}

} // verus!

//! Why parking the shell aliases under placeholders and restoring them gives
//! the text back: the parked text is a marking of the original, and
//! restoring a placeholder turns its marks back into the alias they stood
//! for.
use vstd::prelude::*;
use crate::rebrand::{ALIAS_PRIMARY_PLACEHOLDER, ALIAS_SHORT_PLACEHOLDER};
use crate::brand::{capitalized, Brand, DEFAULT_BINARY_NAME, DEFAULT_PRODUCT_NAME, DEFAULT_SHELL_ALIAS_PRIMARY, DEFAULT_SHELL_ALIAS_SHORT};
use crate::phrase::{aliases_replaced, aliases_replaced_from, standalone_replace_by_itself, whole_alias_at};
use crate::rebrand::{rebranded, term_invocation};
use crate::text::{occurs_at, replaced_from};

verus! {

/// The common core of both placeholders; a text without it has no
/// placeholder of its own.
pub open spec fn placeholder_core() -> Seq<char> {
    "BRAND_ALIAS"@
}

/// The alias that placeholder `j` (1: primary, 2: short) stands for.
pub open spec fn alias_of(j: int) -> Seq<char> {
    if j == 1 {
        "@goose"@
    } else {
        "@g"@
    }
}

/// Placeholder `j` (1: primary, 2: short).
pub open spec fn placeholder_of(j: int) -> Seq<char> {
    if j == 1 {
        ALIAS_PRIMARY_PLACEHOLDER@
    } else {
        ALIAS_SHORT_PLACEHOLDER@
    }
}

/// A pattern that a marking can only produce from copied characters: no `_`
/// in it is followed by another `_` or ends it.
pub open spec fn copy_only(w: Seq<char>) -> bool {
    forall|k: int| 0 <= k < w.len() ==> #[trigger] w[k] != '_' || (k + 1 < w.len() && w[k + 1] != '_')
}

proof fn placeholder_facts()
    ensures
        alias_of(1).len() == 6,
        alias_of(2).len() == 2,
        alias_of(1)[0] == '@',
        alias_of(2)[0] == '@',
        alias_of(2)[1] == 'g',
        placeholder_of(1).len() == 23,
        placeholder_of(2).len() == 21,
        placeholder_core().len() == 11,
        forall|j: int| 1 <= j <= 2 ==> {
            &&& #[trigger] placeholder_of(j)[0] == '_'
            &&& placeholder_of(j)[1] == '_'
            &&& placeholder_of(j).subrange(2, 13) == placeholder_core()
            &&& placeholder_of(j)[placeholder_of(j).len() - 1] == '_'
            &&& placeholder_of(j)[placeholder_of(j).len() - 2] == '_'
            &&& forall|k: int| 0 <= k < placeholder_of(j).len() ==> placeholder_of(j)[k] != '@'
            &&& forall|k: int| 1 <= k < placeholder_of(j).len() - 2 ==> !(#[trigger] placeholder_of(j)[k] == '_' && placeholder_of(j)[k + 1] == '_')
        },
        placeholder_of(1)[14] != placeholder_of(2)[14],
        copy_only(placeholder_core()),
        copy_only(seq!['_'] + placeholder_core()),
        (seq!['_'] + placeholder_core()).len() == 12,
{
    reveal_strlit("@goose");
    reveal_strlit("@g");
    reveal_strlit("__BRAND_ALIAS_PRIMARY__");
    reveal_strlit("__BRAND_ALIAS_SHORT__");
    reveal_strlit("BRAND_ALIAS");
    assert(placeholder_of(1).subrange(2, 13) =~= placeholder_core());
    assert(placeholder_of(2).subrange(2, 13) =~= placeholder_core());
}

/// `y[p..]` is a marking of `x[i..]`: it copies the characters of `x`,
/// except that an occurrence of alias 1 (where `a1` allows) or alias 2
/// (where `a2` allows) may stand as its placeholder instead.
pub open spec fn marks(y: Seq<char>, p: nat, x: Seq<char>, i: nat, a1: bool, a2: bool) -> bool
    decreases x.len() - i,
{
    if i >= x.len() {
        i == x.len() && p == y.len()
    } else {
        ||| (p < y.len() && y[p as int] == x[i as int] && marks(y, p + 1, x, i + 1, a1, a2))
        ||| (a1 && alias_of(1).len() > 0 && occurs_at(x, alias_of(1), i as int) && occurs_at(
            y,
            placeholder_of(1),
            p as int,
        ) && marks(y, p + placeholder_of(1).len(), x, i + alias_of(1).len(), a1, a2))
        ||| (a2 && alias_of(2).len() > 0 && occurs_at(x, alias_of(2), i as int) && occurs_at(
            y,
            placeholder_of(2),
            p as int,
        ) && marks(y, p + placeholder_of(2).len(), x, i + alias_of(2).len(), a1, a2))
    }
}

/// The placeholder `j` stands at `p` in `y`, in place of alias `j` at `i`.
pub open spec fn placeholder_step(y: Seq<char>, p: nat, x: Seq<char>, i: nat, a1: bool, a2: bool, j: int) -> bool {
    &&& (j == 1 && a1 || j == 2 && a2)
    &&& i < x.len()
    &&& occurs_at(x, alias_of(j), i as int)
    &&& occurs_at(y, placeholder_of(j), p as int)
    &&& marks(y, p + placeholder_of(j).len(), x, i + alias_of(j).len(), a1, a2)
}

/// Unfolds `marks` at a position that is not the end of `x`.
proof fn marks_cases(y: Seq<char>, p: nat, x: Seq<char>, i: nat, a1: bool, a2: bool)
    requires
        marks(y, p, x, i, a1, a2),
        i < x.len(),
    ensures
        (p < y.len() && y[p as int] == x[i as int] && marks(y, p + 1, x, i + 1, a1, a2))
            || placeholder_step(y, p, x, i, a1, a2, 1) || placeholder_step(y, p, x, i, a1, a2, 2),
{
}

/// Putting any text before a marking keeps it a marking, further along.
proof fn marks_shift(w: Seq<char>, z: Seq<char>, q: nat, x: Seq<char>, i: nat, a1: bool, a2: bool)
    requires
        marks(z, q, x, i, a1, a2),
    ensures
        marks(w + z, w.len() + q, x, i, a1, a2),
    decreases x.len() - i,
{
    placeholder_facts();
    let y = w + z;
    if i < x.len() {
        marks_cases(z, q, x, i, a1, a2);
        if q < z.len() && z[q as int] == x[i as int] && marks(z, q + 1, x, i + 1, a1, a2) {
            marks_shift(w, z, q + 1, x, i + 1, a1, a2);
            assert(y[(w.len() + q) as int] == z[q as int]);
        } else {
            let j: int = if placeholder_step(z, q, x, i, a1, a2, 1) { 1 } else { 2 };
            marks_shift(w, z, q + placeholder_of(j).len(), x, i + alias_of(j).len(), a1, a2);
            assert(y.subrange((w.len() + q) as int, (w.len() + q + placeholder_of(j).len()) as int)
                =~= z.subrange(q as int, (q + placeholder_of(j).len()) as int));
            assert(w.len() + q + placeholder_of(j).len() == w.len() + (q + placeholder_of(j).len()));
            assert(placeholder_step(y, w.len() + q, x, i, a1, a2, j));
        }
    }
}

/// A text of `x` put before a marking of what follows it in `x` extends
/// the marking.
proof fn marks_prefix(w: Seq<char>, z: Seq<char>, x: Seq<char>, i: nat, m: nat, a1: bool, a2: bool)
    requires
        m <= w.len(),
        i + w.len() <= x.len(),
        x.subrange(i as int, (i + w.len()) as int) == w,
        marks(z, 0, x, i + w.len(), a1, a2),
    ensures
        marks(w + z, m, x, i + m, a1, a2),
    decreases w.len() - m,
{
    if m == w.len() {
        marks_shift(w, z, 0, x, (i + w.len()) as nat, a1, a2);
    } else {
        marks_prefix(w, z, x, i, m + 1, a1, a2);
        assert(x[(i + m) as int] == x.subrange(i as int, (i + w.len()) as int)[m as int]);
        assert((w + z)[m as int] == w[m as int]);
    }
}

/// A copy-only pattern in a marking comes from the same pattern in the text.
proof fn marks_walk(y: Seq<char>, p: nat, x: Seq<char>, i: nat, a1: bool, a2: bool, w: Seq<char>)
    requires
        marks(y, p, x, i, a1, a2),
        occurs_at(y, w, p as int),
        copy_only(w),
    ensures
        occurs_at(x, w, i as int),
    decreases w.len(),
{
    placeholder_facts();
    if w.len() == 0 {
        if i > x.len() {
            assert(false);
        }
        assert(x.subrange(i as int, i as int) =~= w);
    } else {
        assert(y[p as int] == w[0]);
        if i >= x.len() {
            assert(false);
        }
        marks_cases(y, p, x, i, a1, a2);
        if placeholder_step(y, p, x, i, a1, a2, 1) || placeholder_step(y, p, x, i, a1, a2, 2) {
            let j: int = if placeholder_step(y, p, x, i, a1, a2, 1) { 1 } else { 2 };
            assert(y[p as int] == placeholder_of(j)[0]);
            assert(y[(p + 1) as int] == placeholder_of(j)[1]);
            assert(w[0] == '_');
            assert(w.len() > 1 && w[1] != '_');
            assert(w[1] == y[(p + 1) as int]);
            assert(false);
        }
        let rest = w.drop_first();
        assert(y.subrange((p + 1) as int, (p + 1 + rest.len()) as int) =~= rest);
        assert forall|k: int| 0 <= k < rest.len() implies #[trigger] rest[k] != '_' || (k + 1 < rest.len() && rest[k + 1] != '_') by {
            assert(rest[k] == w[k + 1]);
            if w[k + 1] == '_' {
                assert(w[k + 2] == rest[k + 1]);
            }
        }
        marks_walk(y, p + 1, x, i + 1, a1, a2, rest);
        assert(x.subrange(i as int, (i + w.len()) as int) =~= seq![x[i as int]] + x.subrange((i + 1) as int, (i + 1 + rest.len()) as int));
        assert(w =~= seq![w[0]] + rest);
    }
}

/// Parking the primary alias gives a marking of the text.
proof fn park_primary_marks(s: Seq<char>, i: nat)
    requires
        i <= s.len(),
    ensures
        marks(aliases_replaced_from(s, alias_of(1), placeholder_of(1), i), 0, s, i, true, false),
    decreases s.len() - i,
{
    placeholder_facts();
    let t = aliases_replaced_from(s, alias_of(1), placeholder_of(1), i);
    if i < s.len() {
        if whole_alias_at(s, alias_of(1), i as int) {
            let rest = aliases_replaced_from(s, alias_of(1), placeholder_of(1), i + alias_of(1).len());
            park_primary_marks(s, i + alias_of(1).len());
            marks_shift(placeholder_of(1), rest, 0, s, i + alias_of(1).len(), true, false);
            assert(t.subrange(0, placeholder_of(1).len() as int) =~= placeholder_of(1));
            assert(t == placeholder_of(1) + rest);
            assert(placeholder_step(t, 0, s, i, true, false, 1));
        } else {
            let rest = aliases_replaced_from(s, alias_of(1), placeholder_of(1), i + 1);
            park_primary_marks(s, i + 1);
            marks_shift(seq![s[i as int]], rest, 0, s, i + 1, true, false);
            assert(t == seq![s[i as int]] + rest);
        }
    }
}

/// The alias scan copies a stretch that holds no whole alias.
proof fn alias_scan_copies(y: Seq<char>, alias: Seq<char>, rep: Seq<char>, a: nat, b: nat)
    requires
        a <= b <= y.len(),
        forall|q: int| a <= q < b ==> !whole_alias_at(y, alias, q),
    ensures
        aliases_replaced_from(y, alias, rep, a) == y.subrange(a as int, b as int)
            + aliases_replaced_from(y, alias, rep, b),
    decreases b - a,
{
    if a < b {
        alias_scan_copies(y, alias, rep, a + 1, b);
        assert(y.subrange(a as int, b as int) =~= seq![y[a as int]] + y.subrange((a + 1) as int, b as int));
    } else {
        assert(y.subrange(a as int, b as int) =~= Seq::<char>::empty());
    }
}

/// The replacing scan copies a stretch that holds no occurrence.
proof fn replace_scan_copies(y: Seq<char>, pat: Seq<char>, rep: Seq<char>, a: nat, b: nat)
    requires
        a <= b <= y.len(),
        forall|q: int| a <= q < b ==> !occurs_at(y, pat, q),
    ensures
        replaced_from(y, pat, rep, a) == y.subrange(a as int, b as int) + replaced_from(y, pat, rep, b),
    decreases b - a,
{
    if a < b {
        replace_scan_copies(y, pat, rep, a + 1, b);
        assert(y.subrange(a as int, b as int) =~= seq![y[a as int]] + y.subrange((a + 1) as int, b as int));
    } else {
        assert(y.subrange(a as int, b as int) =~= Seq::<char>::empty());
    }
}

/// Parking the short alias in a marking keeps it a marking.
proof fn park_short_marks(y: Seq<char>, p: nat, x: Seq<char>, i: nat, a1: bool, a2: bool)
    requires
        marks(y, p, x, i, a1, a2),
    ensures
        marks(aliases_replaced_from(y, alias_of(2), placeholder_of(2), p), 0, x, i, a1, true),
    decreases x.len() - i,
{
    placeholder_facts();
    let t = aliases_replaced_from(y, alias_of(2), placeholder_of(2), p);
    if i < x.len() {
        marks_cases(y, p, x, i, a1, a2);
        if p < y.len() && y[p as int] == x[i as int] && marks(y, p + 1, x, i + 1, a1, a2) {
            if whole_alias_at(y, alias_of(2), p as int) {
                assert(y[p as int] == alias_of(2)[0]);
                assert(y[(p + 1) as int] == alias_of(2)[1]);
                if i + 1 >= x.len() {
                    assert(false);
                }
                marks_cases(y, p + 1, x, i + 1, a1, a2);
                if placeholder_step(y, p + 1, x, i + 1, a1, a2, 1) || placeholder_step(y, p + 1, x, i + 1, a1, a2, 2) {
                    let j: int = if placeholder_step(y, p + 1, x, i + 1, a1, a2, 1) { 1 } else { 2 };
                    assert(y[(p + 1) as int] == placeholder_of(j)[0]);
                    assert(false);
                }
                assert(x.subrange(i as int, (i + 2) as int) =~= alias_of(2));
                let rest = aliases_replaced_from(y, alias_of(2), placeholder_of(2), p + 2);
                park_short_marks(y, p + 2, x, i + 2, a1, a2);
                marks_shift(placeholder_of(2), rest, 0, x, i + 2, a1, true);
                assert(t == placeholder_of(2) + rest);
                assert(t.subrange(0, placeholder_of(2).len() as int) =~= placeholder_of(2));
                assert(placeholder_step(t, 0, x, i, a1, true, 2));
            } else {
                let rest = aliases_replaced_from(y, alias_of(2), placeholder_of(2), p + 1);
                park_short_marks(y, p + 1, x, i + 1, a1, a2);
                marks_shift(seq![y[p as int]], rest, 0, x, i + 1, a1, true);
                assert(t == seq![y[p as int]] + rest);
            }
        } else {
            let j: int = if placeholder_step(y, p, x, i, a1, a2, 1) { 1 } else { 2 };
            let ph = placeholder_of(j);
            let end = p + ph.len();
            assert(ph[0] == '_');
            assert forall|q: int| p <= q < end implies !whole_alias_at(y, alias_of(2), q) by {
                assert(y[q] == y.subrange(p as int, end as int)[q - p]);
                assert(y[q] == ph[q - p]);
                assert(ph[q - p] != '@');
                if whole_alias_at(y, alias_of(2), q) {
                    assert(y.subrange(q, q + alias_of(2).len())[0] == y[q]);
                }
            }
            alias_scan_copies(y, alias_of(2), placeholder_of(2), p, end);
            let rest = aliases_replaced_from(y, alias_of(2), placeholder_of(2), end);
            park_short_marks(y, end, x, i + alias_of(j).len(), a1, a2);
            marks_shift(ph, rest, 0, x, i + alias_of(j).len(), a1, true);
            assert(t == ph + rest);
            assert(t.subrange(0, ph.len() as int) =~= ph);
            assert(placeholder_step(t, 0, x, i, a1, true, j));
        }
    }
}

/// `x` holds no placeholder core anywhere.
pub open spec fn core_free(x: Seq<char>) -> bool {
    forall|q: int| !occurs_at(x, placeholder_core(), q)
}

/// An underscore followed by the core holds the core one further on.
proof fn core_after_underscore(x: Seq<char>, at: int)
    requires
        occurs_at(x, seq!['_'] + placeholder_core(), at),
    ensures
        occurs_at(x, placeholder_core(), at + 1),
{
    placeholder_facts();
    let w = seq!['_'] + placeholder_core();
    assert forall|m: int| 0 <= m < 11 implies x.subrange(at + 1, at + 12)[m] == placeholder_core()[m] by {
        assert(x.subrange(at, at + 12)[m + 1] == w[m + 1]);
        assert(w[m + 1] == placeholder_core()[m]);
    }
    assert(x.subrange(at + 1, at + 12) =~= placeholder_core());
}

/// Restoring placeholder `k` in a marking gives a marking without it.
proof fn restore_marks(y: Seq<char>, p: nat, x: Seq<char>, i: nat, a1: bool, a2: bool, k: int)
    requires
        marks(y, p, x, i, a1, a2),
        core_free(x),
        k == 1 || k == 2,
    ensures
        marks(replaced_from(y, placeholder_of(k), alias_of(k), p), 0, x, i, a1 && k != 1, a2 && k != 2),
    decreases x.len() - i,
{
    placeholder_facts();
    let pk = placeholder_of(k);
    let ak = alias_of(k);
    let b1 = a1 && k != 1;
    let b2 = a2 && k != 2;
    let t = replaced_from(y, pk, ak, p);
    let w = seq!['_'] + placeholder_core();
    assert(pk[0] == '_');
    if i < x.len() {
        marks_cases(y, p, x, i, a1, a2);
        if p < y.len() && y[p as int] == x[i as int] && marks(y, p + 1, x, i + 1, a1, a2) {
            if occurs_at(y, pk, p as int) {
                assert forall|m: int| 0 <= m < 12 implies y.subrange((p + 1) as int, (p + 13) as int)[m] == w[m] by {
                    assert(y.subrange(p as int, (p + pk.len()) as int)[m + 1] == pk[m + 1]);
                    if m > 0 {
                        assert(pk.subrange(2, 13)[m - 1] == pk[m + 1]);
                    }
                }
                assert(y.subrange((p + 1) as int, (p + 13) as int) =~= w);
                marks_walk(y, p + 1, x, i + 1, a1, a2, w);
                core_after_underscore(x, (i + 1) as int);
                assert(false);
            }
            let rest = replaced_from(y, pk, ak, p + 1);
            restore_marks(y, p + 1, x, i + 1, a1, a2, k);
            marks_shift(seq![y[p as int]], rest, 0, x, i + 1, b1, b2);
            assert(t == seq![y[p as int]] + rest);
        } else {
            let j: int = if placeholder_step(y, p, x, i, a1, a2, 1) { 1 } else { 2 };
            let pj = placeholder_of(j);
            let aj = alias_of(j);
            let end = p + pj.len();
            assert(pj[0] == '_');
            if j == k {
                let rest = replaced_from(y, pk, ak, end);
                restore_marks(y, end, x, i + aj.len(), a1, a2, k);
                assert(t == ak + rest);
                marks_prefix(ak, rest, x, i, 0, b1, b2);
            } else {
                assert forall|q: int| p <= q < end implies !occurs_at(y, pk, q) by {
                    if occurs_at(y, pk, q) {
                        assert(y.subrange(q, q + pk.len())[0] == y[q]);
                        assert(y.subrange(q, q + pk.len())[1] == y[q + 1]);
                        if q == p {
                            assert(y.subrange(p as int, end as int)[14] == y[(p + 14) as int]);
                            assert(y.subrange(q, q + pk.len())[14] == y[q + 14]);
                            assert(false);
                        } else if q < end - 2 {
                            assert(y.subrange(p as int, end as int)[q - p] == y[q]);
                            assert(y.subrange(p as int, end as int)[q - p + 1] == y[q + 1]);
                            assert(pj[q - p] == '_' && pj[q - p + 1] == '_');
                            assert(false);
                        } else if q == end - 2 {
                            assert forall|m: int| 0 <= m < 11 implies y.subrange(end as int, (end + 11) as int)[m]
                                == placeholder_core()[m] by {
                                assert(y.subrange(q, q + pk.len())[m + 2] == pk[m + 2]);
                                assert(pk.subrange(2, 13)[m] == pk[m + 2]);
                            }
                            assert(y.subrange(end as int, (end + 11) as int) =~= placeholder_core());
                            marks_walk(y, end, x, i + aj.len(), a1, a2, placeholder_core());
                            assert(false);
                        } else {
                            assert forall|m: int| 0 <= m < 12 implies y.subrange(end as int, (end + 12) as int)[m] == w[m] by {
                                assert(y.subrange(q, q + pk.len())[m + 1] == pk[m + 1]);
                                if m > 0 {
                                    assert(pk.subrange(2, 13)[m - 1] == pk[m + 1]);
                                }
                            }
                            assert(y.subrange(end as int, (end + 12) as int) =~= w);
                            marks_walk(y, end, x, i + aj.len(), a1, a2, w);
                            core_after_underscore(x, (i + aj.len()) as int);
                            assert(false);
                        }
                    }
                }
                replace_scan_copies(y, pk, ak, p, end);
                let rest = replaced_from(y, pk, ak, end);
                restore_marks(y, end, x, i + aj.len(), a1, a2, k);
                marks_shift(pj, rest, 0, x, i + aj.len(), b1, b2);
                assert(y.subrange(p as int, end as int) == pj);
                assert(t == pj + rest);
                assert(t.subrange(0, pj.len() as int) =~= pj);
                assert(placeholder_step(t, 0, x, i, b1, b2, j));
            }
        }
    } else {
        assert(t =~= Seq::<char>::empty());
    }
}

/// A marking that uses no placeholder is the text itself.
proof fn marks_plain(y: Seq<char>, p: nat, x: Seq<char>, i: nat)
    requires
        marks(y, p, x, i, false, false),
    ensures
        y.subrange(p as int, y.len() as int) == x.subrange(i as int, x.len() as int),
    decreases x.len() - i,
{
    if i < x.len() {
        marks_plain(y, p + 1, x, i + 1);
        assert(y.subrange(p as int, y.len() as int) =~= seq![y[p as int]] + y.subrange((p + 1) as int, y.len() as int));
        assert(x.subrange(i as int, x.len() as int) =~= seq![x[i as int]] + x.subrange((i + 1) as int, x.len() as int));
    } else {
        assert(y.subrange(p as int, y.len() as int) =~= Seq::<char>::empty());
        assert(x.subrange(i as int, x.len() as int) =~= Seq::<char>::empty());
    }
}

/// A brand whose product name, binary name and shell aliases are the
/// defaults rewrites nothing: `rebranded(s, b)` is `s` for every text that
/// does not itself hold the placeholders' core `BRAND_ALIAS`.
pub proof fn default_names_rebrand_nothing(s: Seq<char>, b: Brand)
    requires
        b.product_name@ == DEFAULT_PRODUCT_NAME@,
        b.binary_name@ == DEFAULT_BINARY_NAME@,
        b.shell_alias_primary@ == DEFAULT_SHELL_ALIAS_PRIMARY@,
        b.shell_alias_short@ == DEFAULT_SHELL_ALIAS_SHORT@,
        forall|q: int| !occurs_at(s, "BRAND_ALIAS"@, q),
    ensures
        rebranded(s, b) == s,
{
    placeholder_facts();
    reveal_strlit("goose");
    reveal_strlit("g");
    reveal_strlit("@");
    reveal_strlit("@goose");
    reveal_strlit("@g");
    reveal_strlit("Goose");
    reveal_strlit("-channel");
    reveal_strlit("goose-channel");
    let t1 = aliases_replaced(s, "@goose"@, ALIAS_PRIMARY_PLACEHOLDER@);
    park_primary_marks(s, 0);
    let t2 = aliases_replaced(t1, "@g"@, ALIAS_SHORT_PLACEHOLDER@);
    park_short_marks(t1, 0, s, 0, true, false);
    assert(t2.subrange(0, t2.len() as int) =~= t2);
    standalone_replace_by_itself(t2, term_invocation(DEFAULT_BINARY_NAME@), 0);
    assert(b.binary_name@ + "-channel"@ =~= "goose-channel"@);
    standalone_replace_by_itself(t2, "goose-channel"@, 0);
    assert(capitalized(b.product_name@) =~= "Goose"@);
    standalone_replace_by_itself(t2, "Goose"@, 0);
    standalone_replace_by_itself(t2, DEFAULT_PRODUCT_NAME@, 0);
    assert("@"@ + b.shell_alias_primary@ =~= alias_of(1));
    assert("@"@ + b.shell_alias_short@ =~= alias_of(2));
    restore_marks(t2, 0, s, 0, true, true, 1);
    let r1 = replaced_from(t2, placeholder_of(1), alias_of(1), 0);
    restore_marks(r1, 0, s, 0, false, true, 2);
    let r2 = replaced_from(r1, placeholder_of(2), alias_of(2), 0);
    marks_plain(r2, 0, s, 0);
    assert(r2.subrange(0, r2.len() as int) =~= r2);
    assert(s.subrange(0, s.len() as int) =~= s);
}

} // verus!

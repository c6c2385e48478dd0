//! Replacing a phrase only where it stands alone, i.e. where it is not part
//! of a longer identifier-like word.
use vstd::prelude::*;
use crate::text::{
    chars_of, is_alphanumeric, occurs_at, occurs_at_exec, push_all, push_range, string_of,
    alphanumeric,
};

verus! {

/// A character that ends a word for rebranding: the edge of the text, or any
/// character that is not alphanumeric, `-` or `_`.
pub open spec fn rebrand_boundary(ch: Option<char>) -> bool {
    match ch {
        None => true,
        Some(c) => !alphanumeric(c) && c != '-' && c != '_',
    }
}

/// The character just before position `i`, if any.
pub open spec fn char_before(s: Seq<char>, i: int) -> Option<char> {
    if 0 < i <= s.len() {
        Some(s[i - 1])
    } else {
        None
    }
}

/// The character at position `i`, if any.
pub open spec fn char_at(s: Seq<char>, i: int) -> Option<char> {
    if 0 <= i < s.len() {
        Some(s[i])
    } else {
        None
    }
}

/// A non-empty `needle` occurs at `i` in `s` with a word boundary on each side.
pub open spec fn standalone_at(s: Seq<char>, needle: Seq<char>, i: int) -> bool {
    &&& needle.len() > 0
    &&& occurs_at(s, needle, i)
    &&& rebrand_boundary(char_before(s, i))
    &&& rebrand_boundary(char_at(s, i + needle.len()))
}

/// `s[i..]` with every standalone occurrence of `needle` replaced by
/// `replacement`, scanning left to right; an occurrence that is replaced is
/// skipped whole, one that is not lets the scan go on at the next character.
pub open spec fn standalone_replaced_from(
    s: Seq<char>,
    needle: Seq<char>,
    replacement: Seq<char>,
    i: nat,
) -> Seq<char>
    decreases s.len() - i,
{
    if i >= s.len() {
        Seq::empty()
    } else if standalone_at(s, needle, i as int) {
        replacement + standalone_replaced_from(s, needle, replacement, i + needle.len())
    } else {
        seq![s[i as int]] + standalone_replaced_from(s, needle, replacement, i + 1)
    }
}

/// `s` with every standalone occurrence of `needle` replaced by `replacement`.
pub open spec fn standalone_replaced(s: Seq<char>, needle: Seq<char>, replacement: Seq<char>) -> Seq<char> {
    standalone_replaced_from(s, needle, replacement, 0)
}

/// Whether `ch` marks a word boundary for rebranding.
pub fn is_rebrand_boundary(ch: Option<char>) -> (r: bool)
    ensures
        r == rebrand_boundary(ch),
{
    match ch {
        None => true,
        Some(c) => !is_alphanumeric(c) && c != '-' && c != '_',
    }
}

/// The first position `k >= from` where `needle` occurs in `s`.
fn find_from(s: &Vec<char>, needle: &Vec<char>, from: usize) -> (r: Option<usize>)
    requires
        from <= s@.len(),
        needle@.len() > 0,
    ensures
        match r {
            Some(k) => {
                &&& from <= k < s@.len()
                &&& occurs_at(s@, needle@, k as int)
                &&& forall|j: int| from <= j < k ==> !occurs_at(s@, needle@, j)
            },
            None => forall|j: int| from <= j ==> !occurs_at(s@, needle@, j),
        },
{
    let mut k: usize = from;
    while k < s.len()
        invariant
            from <= k <= s@.len(),
            forall|j: int| from <= j < k ==> !occurs_at(s@, needle@, j),
        decreases s@.len() - k,
    {
        if occurs_at_exec(s, needle, k) {
            return Some(k);
        }
        k = k + 1;
    }
    None
}

/// Positions `from..k` hold no occurrence of `needle`, so the scan copies
/// them unchanged.
proof fn lemma_copy_until(s: Seq<char>, needle: Seq<char>, replacement: Seq<char>, from: nat, k: nat)
    requires
        from <= k <= s.len(),
        forall|j: int| from <= j < k ==> !occurs_at(s, needle, j),
    ensures
        standalone_replaced_from(s, needle, replacement, from) == s.subrange(from as int, k as int)
            + standalone_replaced_from(s, needle, replacement, k),
    decreases k - from,
{
    if from < k {
        lemma_copy_until(s, needle, replacement, from + 1, k);
        assert(s.subrange(from as int, k as int) =~= seq![s[from as int]] + s.subrange(
            (from + 1) as int,
            k as int,
        ));
    } else {
        assert(s.subrange(from as int, k as int) =~= Seq::<char>::empty());
    }
}

/// A non-empty shell `alias` occurs at `i` in `s` as a whole: the character
/// after it, if any, is a word boundary.
pub open spec fn whole_alias_at(s: Seq<char>, alias: Seq<char>, i: int) -> bool {
    &&& alias.len() > 0
    &&& occurs_at(s, alias, i)
    &&& rebrand_boundary(char_at(s, i + alias.len()))
}

/// `s[i..]` with every whole occurrence of `alias` replaced by `replacement`,
/// scanning left to right.
pub open spec fn aliases_replaced_from(
    s: Seq<char>,
    alias: Seq<char>,
    replacement: Seq<char>,
    i: nat,
) -> Seq<char>
    decreases s.len() - i,
{
    if i >= s.len() {
        Seq::empty()
    } else if whole_alias_at(s, alias, i as int) {
        replacement + aliases_replaced_from(s, alias, replacement, i + alias.len())
    } else {
        seq![s[i as int]] + aliases_replaced_from(s, alias, replacement, i + 1)
    }
}

/// `s` with every whole occurrence of `alias` replaced by `replacement`.
pub open spec fn aliases_replaced(s: Seq<char>, alias: Seq<char>, replacement: Seq<char>) -> Seq<char> {
    aliases_replaced_from(s, alias, replacement, 0)
}

/// Replaces every whole occurrence of the shell alias `alias` in `s` (one
/// not followed by an identifier character) by `replacement`.
pub fn replace_whole_alias(s: &Vec<char>, alias: &Vec<char>, replacement: &Vec<char>) -> (r: Vec<char>)
    requires
        alias@.len() > 0,
    ensures
        r@ == aliases_replaced(s@, alias@, replacement@),
{
    let mut out: Vec<char> = Vec::new();
    let mut i: usize = 0;
    while i < s.len()
        invariant
            alias@.len() > 0,
            i <= s@.len(),
            out@ + aliases_replaced_from(s@, alias@, replacement@, i as nat)
                == aliases_replaced(s@, alias@, replacement@),
        decreases s@.len() - i,
    {
        let whole = if occurs_at_exec(s, alias, i) {
            let end = i + alias.len();
            let next = if end < s.len() {
                Some(s[end])
            } else {
                None
            };
            is_rebrand_boundary(next)
        } else {
            false
        };
        if whole {
            push_all(&mut out, replacement);
            assert(out@ + aliases_replaced_from(s@, alias@, replacement@, (i + alias@.len()) as nat)
                =~= aliases_replaced(s@, alias@, replacement@));
            i = i + alias.len();
        } else {
            out.push(s[i]);
            assert(out@ + aliases_replaced_from(s@, alias@, replacement@, (i + 1) as nat)
                =~= aliases_replaced(s@, alias@, replacement@));
            i = i + 1;
        }
    }
    assert(out@ =~= out@ + aliases_replaced_from(s@, alias@, replacement@, i as nat));
    out
}

/// Replaces every standalone occurrence of `needle` in `s` by `replacement`.
pub fn replace_standalone_chars(s: &Vec<char>, needle: &Vec<char>, replacement: &Vec<char>) -> (r: Vec<char>)
    requires
        needle@.len() > 0,
    ensures
        r@ == standalone_replaced(s@, needle@, replacement@),
{
    let mut out: Vec<char> = Vec::new();
    let mut from: usize = 0;
    let len = s.len();
    loop
        invariant
            needle@.len() > 0,
            len == s@.len(),
            from <= s@.len(),
            out@ + standalone_replaced_from(s@, needle@, replacement@, from as nat)
                == standalone_replaced(s@, needle@, replacement@),
        ensures
            from <= s@.len(),
            out@ + s@.subrange(from as int, s@.len() as int)
                == standalone_replaced(s@, needle@, replacement@),
        decreases s@.len() - from,
    {
        match find_from(s, needle, from) {
            None => {
                proof {
                    lemma_copy_until(s@, needle@, replacement@, from as nat, s@.len());
                    assert(standalone_replaced_from(s@, needle@, replacement@, s@.len())
                        =~= Seq::<char>::empty());
                    assert(s@.subrange(from as int, s@.len() as int) + Seq::<char>::empty()
                        =~= s@.subrange(from as int, s@.len() as int));
                }
                break;
            },
            Some(start) => {
                let end = start + needle.len();
                let prev = if start == 0 {
                    None
                } else {
                    Some(s[start - 1])
                };
                let next = if end < s.len() {
                    Some(s[end])
                } else {
                    None
                };
                proof {
                    lemma_copy_until(s@, needle@, replacement@, from as nat, start as nat);
                }
                if is_rebrand_boundary(prev) && is_rebrand_boundary(next) {
                    assert(standalone_at(s@, needle@, start as int));
                    push_range(&mut out, s, from, start);
                    push_all(&mut out, replacement);
                    assert(out@ + standalone_replaced_from(s@, needle@, replacement@, end as nat)
                        =~= standalone_replaced(s@, needle@, replacement@));
                    from = end;
                } else {
                    assert(!standalone_at(s@, needle@, start as int));
                    push_range(&mut out, s, from, start + 1);
                    assert(s@.subrange(from as int, start + 1) =~= s@.subrange(from as int, start as int)
                        + seq![s@[start as int]]);
                    assert(out@ + standalone_replaced_from(s@, needle@, replacement@, (start + 1) as nat)
                        =~= standalone_replaced(s@, needle@, replacement@));
                    from = start + 1;
                }
            },
        }
    }
    push_range(&mut out, s, from, len);
    out
}

/// Replaces every standalone occurrence of `needle` in `s` by `replacement`:
/// an occurrence counts only where the characters on both sides of it (or the
/// edges of the text) are neither alphanumeric nor `-` nor `_`.
pub fn replace_standalone_phrase(s: &str, needle: &str, replacement: &str) -> (r: String)
    requires
        needle@.len() > 0,
    ensures
        r@ == standalone_replaced(s@, needle@, replacement@),
{
    let vs = chars_of(s);
    let vn = chars_of(needle);
    let vr = chars_of(replacement);
    let out = replace_standalone_chars(&vs, &vn, &vr);
    string_of(&out)
}

/// Replacing a phrase by itself leaves the text unchanged: from any
/// position on, the scan gives back exactly the rest of the text.
pub proof fn standalone_replace_by_itself(s: Seq<char>, needle: Seq<char>, i: nat)
    requires
        i <= s.len(),
    ensures
        standalone_replaced_from(s, needle, needle, i) == s.subrange(i as int, s.len() as int),
    decreases s.len() - i,
{
    if i < s.len() {
        if standalone_at(s, needle, i as int) {
            standalone_replace_by_itself(s, needle, i + needle.len());
            assert(s.subrange(i as int, s.len() as int) =~= s.subrange(i as int, (i + needle.len()) as int)
                + s.subrange((i + needle.len()) as int, s.len() as int));
        } else {
            standalone_replace_by_itself(s, needle, i + 1);
            assert(s.subrange(i as int, s.len() as int) =~= seq![s[i as int]] + s.subrange(
                (i + 1) as int,
                s.len() as int,
            ));
        }
    } else {
        assert(s.subrange(i as int, s.len() as int) =~= Seq::<char>::empty());
    }
}

/// A text in which the phrase never stands alone is left unchanged, whatever
/// the replacement.
pub proof fn standalone_replace_without_match(
    s: Seq<char>,
    needle: Seq<char>,
    replacement: Seq<char>,
    i: nat,
)
    requires
        i <= s.len(),
        forall|j: int| i <= j < s.len() ==> !standalone_at(s, needle, j),
    ensures
        standalone_replaced_from(s, needle, replacement, i) == s.subrange(i as int, s.len() as int),
    decreases s.len() - i,
{
    if i < s.len() {
        standalone_replace_without_match(s, needle, replacement, i + 1);
        assert(s.subrange(i as int, s.len() as int) =~= seq![s[i as int]] + s.subrange(
            (i + 1) as int,
            s.len() as int,
        ));
    } else {
        assert(s.subrange(i as int, s.len() as int) =~= Seq::<char>::empty());
    }
}

} // verus!

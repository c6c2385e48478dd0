//! Character-level text utilities: the model of a string is its `Seq<char>`.
use vstd::prelude::*;

verus! {

/// What `char::is_alphanumeric` answers for a character outside ASCII
/// (Unicode `Alphabetic` or `Numeric`); it depends on the character alone.
pub uninterp spec fn unicode_alphanumeric(c: char) -> bool;

/// What `char::to_uppercase` yields for a character outside ASCII (its
/// Unicode uppercase mapping, one or more characters); it depends on the
/// character alone.
pub uninterp spec fn unicode_uppercase(c: char) -> Seq<char>;

/// An ASCII letter or digit.
pub open spec fn ascii_alphanumeric(c: char) -> bool {
    ||| ('a' <= c && c <= 'z')
    ||| ('A' <= c && c <= 'Z')
    ||| ('0' <= c && c <= '9')
}

/// Whether a character is alphanumeric (`char::is_alphanumeric`): among
/// ASCII exactly the letters and digits, beyond ASCII Unicode's answer.
pub open spec fn alphanumeric(c: char) -> bool {
    if (c as u32) < 128 {
        ascii_alphanumeric(c)
    } else {
        unicode_alphanumeric(c)
    }
}

/// The uppercase of an ASCII character: `a`..=`z` map to `A`..=`Z`, every
/// other ASCII character has no uppercase mapping and stays itself.
pub open spec fn ascii_uppercase_of(c: char) -> char {
    if 'a' <= c && c <= 'z' {
        ((c as u32) - 32) as char
    } else {
        c
    }
}

/// The uppercase mapping of a character (`char::to_uppercase`): a single
/// character for ASCII, Unicode's mapping beyond it.
pub open spec fn uppercase_of(c: char) -> Seq<char> {
    if (c as u32) < 128 {
        seq![ascii_uppercase_of(c)]
    } else {
        unicode_uppercase(c)
    }
}

/// Unicode's `White_Space` property, which `char::is_whitespace` answers:
/// tab, line feed, vertical tab, form feed, carriage return, space, next
/// line, no-break space, ogham space mark, the spaces U+2000..=U+200A, line
/// and paragraph separator, narrow no-break space, medium mathematical space
/// and ideographic space.
pub open spec fn unicode_whitespace(c: char) -> bool {
    ||| ('\u{9}' <= c && c <= '\u{d}')
    ||| c == ' '
    ||| c == '\u{85}'
    ||| c == '\u{a0}'
    ||| c == '\u{1680}'
    ||| ('\u{2000}' <= c && c <= '\u{200a}')
    ||| c == '\u{2028}'
    ||| c == '\u{2029}'
    ||| c == '\u{202f}'
    ||| c == '\u{205f}'
    ||| c == '\u{3000}'
}

/// Calls `char::is_alphanumeric`. Trusted: for ASCII the answer is true of
/// exactly the letters and digits (std's `is_alphabetic` and `is_numeric`
/// answer ASCII by these ranges); beyond ASCII it is the named
/// `unicode_alphanumeric(c)`, and nothing more is claimed of Unicode's tables.
#[verifier::external_body]
pub fn is_alphanumeric(c: char) -> (r: bool)
    ensures
        (c as u32) < 128 ==> r == ascii_alphanumeric(c),
        (c as u32) >= 128 ==> r == unicode_alphanumeric(c),
{
    c.is_alphanumeric()
}

/// Calls `char::to_uppercase` and collects what it yields. Trusted: for an
/// ASCII character it yields one character, `a`..=`z` mapped to `A`..=`Z`
/// and any other ASCII character unchanged (it has no uppercase mapping);
/// beyond ASCII it yields the named `unicode_uppercase(c)`.
#[verifier::external_body]
pub fn to_uppercase(c: char) -> (r: Vec<char>)
    ensures
        (c as u32) < 128 ==> r@ == seq![ascii_uppercase_of(c)],
        (c as u32) >= 128 ==> r@ == unicode_uppercase(c),
{
    c.to_uppercase().collect()
}

/// Whether `c` is white space in Unicode's sense (`char::is_whitespace`).
pub fn is_whitespace(c: char) -> (r: bool)
    ensures
        r == unicode_whitespace(c),
{
    ('\u{9}' <= c && c <= '\u{d}') || c == ' ' || c == '\u{85}' || c == '\u{a0}' || c == '\u{1680}'
        || ('\u{2000}' <= c && c <= '\u{200a}') || c == '\u{2028}' || c == '\u{2029}'
        || c == '\u{202f}' || c == '\u{205f}' || c == '\u{3000}'
}

/// Collects characters into a `String` with `FromIterator<&char>`. Trusted:
/// the string holds exactly those characters, in order.
#[verifier::external_body]
pub fn string_of(v: &Vec<char>) -> (r: String)
    ensures
        r@ == v@,
{
    v.iter().collect()
}

/// The characters of `s`, in order, as a vector.
pub fn chars_of(s: &str) -> (r: Vec<char>)
    ensures
        r@ == s@,
{
    let mut r: Vec<char> = Vec::new();
    for c in it: s.chars()
        invariant
            r@ == it.seq().take(it.index() as int),
            it.seq() == s@,
    {
        r.push(c);
    }
    r
}

/// Whether two character vectors hold the same text.
pub fn chars_equal(a: &Vec<char>, b: &Vec<char>) -> (r: bool)
    ensures
        r == (a@ == b@),
{
    if a.len() != b.len() {
        return false;
    }
    let mut i: usize = 0;
    while i < a.len()
        invariant
            a@.len() == b@.len(),
            i <= a@.len(),
            forall|j: int| 0 <= j < i ==> a@[j] == b@[j],
        decreases a@.len() - i,
    {
        if a[i] != b[i] {
            return false;
        }
        i = i + 1;
    }
    assert(a@ =~= b@);
    true
}

/// Whether two string slices hold the same text (`==` on `&str`).
pub fn text_equal(a: &str, b: &str) -> (r: bool)
    ensures
        r == (a@ == b@),
{
    let va = chars_of(a);
    let vb = chars_of(b);
    chars_equal(&va, &vb)
}

/// Appends `s[from..to]` to `out`.
pub fn push_range(out: &mut Vec<char>, s: &Vec<char>, from: usize, to: usize)
    requires
        from <= to <= s@.len(),
    ensures
        final(out)@ == old(out)@ + s@.subrange(from as int, to as int),
{
    let mut i: usize = from;
    while i < to
        invariant
            from <= i <= to <= s@.len(),
            out@ == old(out)@ + s@.subrange(from as int, i as int),
        decreases to - i,
    {
        out.push(s[i]);
        i = i + 1;
        assert(out@ =~= old(out)@ + s@.subrange(from as int, i as int));
    }
}

/// Appends all of `s` to `out`.
pub fn push_all(out: &mut Vec<char>, s: &Vec<char>)
    ensures
        final(out)@ == old(out)@ + s@,
{
    push_range(out, s, 0, s.len());
    assert(s@.subrange(0, s@.len() as int) =~= s@);
}

/// `needle` occurs in `s` starting at position `i`.
pub open spec fn occurs_at(s: Seq<char>, needle: Seq<char>, i: int) -> bool {
    &&& 0 <= i
    &&& i + needle.len() <= s.len()
    &&& s.subrange(i, i + needle.len()) == needle
}

/// Whether `needle` occurs in `s` at position `i`.
pub fn occurs_at_exec(s: &Vec<char>, needle: &Vec<char>, i: usize) -> (r: bool)
    ensures
        r == occurs_at(s@, needle@, i as int),
{
    if i > s.len() || needle.len() > s.len() - i {
        return false;
    }
    let mut j: usize = 0;
    while j < needle.len()
        invariant
            i + needle@.len() <= s@.len() <= usize::MAX,
            j <= needle@.len(),
            forall|k: int| 0 <= k < j ==> s@[i + k] == needle@[k],
        decreases needle@.len() - j,
    {
        if s[i + j] != needle[j] {
            assert(s@.subrange(i as int, i + needle@.len())[j as int] != needle@[j as int]);
            return false;
        }
        j = j + 1;
    }
    assert(s@.subrange(i as int, i + needle@.len()) =~= needle@);
    true
}

/// `s[i..]` with every occurrence of `from` replaced by `to`, matches taken
/// left to right without overlap (what `str::replace` does for a non-empty
/// pattern).
pub open spec fn replaced_from(s: Seq<char>, from: Seq<char>, to: Seq<char>, i: nat) -> Seq<char>
    decreases s.len() - i, from.len(),
{
    if i >= s.len() {
        Seq::empty()
    } else if from.len() > 0 && occurs_at(s, from, i as int) {
        to + replaced_from(s, from, to, i + from.len())
    } else {
        seq![s[i as int]] + replaced_from(s, from, to, i + 1)
    }
}

/// `s` with every occurrence of `from` replaced by `to`.
pub open spec fn replaced(s: Seq<char>, from: Seq<char>, to: Seq<char>) -> Seq<char> {
    replaced_from(s, from, to, 0)
}

/// Replaces every occurrence of `from` in `s` by `to`, scanning left to
/// right (the behaviour of `str::replace` with a non-empty pattern).
pub fn replace_all(s: &Vec<char>, from: &Vec<char>, to: &Vec<char>) -> (r: Vec<char>)
    requires
        from@.len() > 0,
    ensures
        r@ == replaced(s@, from@, to@),
{
    let mut out: Vec<char> = Vec::new();
    let mut i: usize = 0;
    while i < s.len()
        invariant
            from@.len() > 0,
            i <= s@.len(),
            out@ + replaced_from(s@, from@, to@, i as nat) == replaced(s@, from@, to@),
        decreases s@.len() - i,
    {
        if occurs_at_exec(s, from, i) {
            push_all(&mut out, to);
            assert(out@ + replaced_from(s@, from@, to@, (i + from@.len()) as nat) =~= replaced(s@, from@, to@));
            i = i + from.len();
        } else {
            out.push(s[i]);
            assert(out@ + replaced_from(s@, from@, to@, (i + 1) as nat) =~= replaced(s@, from@, to@));
            i = i + 1;
        }
    }
    assert(out@ =~= out@ + replaced_from(s@, from@, to@, i as nat));
    out
}

/// Replacing a pattern by itself leaves the text unchanged: from any
/// position on, the scan gives back exactly the rest of the text.
pub proof fn replace_by_itself(s: Seq<char>, pattern: Seq<char>, i: nat)
    requires
        i <= s.len(),
    ensures
        replaced_from(s, pattern, pattern, i) == s.subrange(i as int, s.len() as int),
    decreases s.len() - i,
{
    if i < s.len() {
        if pattern.len() > 0 && occurs_at(s, pattern, i as int) {
            replace_by_itself(s, pattern, i + pattern.len());
            assert(s.subrange(i as int, s.len() as int) =~= s.subrange(i as int, (i + pattern.len()) as int)
                + s.subrange((i + pattern.len()) as int, s.len() as int));
        } else {
            replace_by_itself(s, pattern, i + 1);
            assert(s.subrange(i as int, s.len() as int) =~= seq![s[i as int]] + s.subrange(
                (i + 1) as int,
                s.len() as int,
            ));
        }
    } else {
        assert(s.subrange(i as int, s.len() as int) =~= Seq::<char>::empty());
    }
}

/// A text in which the pattern never occurs is left unchanged.
pub proof fn replace_without_match(s: Seq<char>, pattern: Seq<char>, to: Seq<char>, i: nat)
    requires
        i <= s.len(),
        forall|j: int| i <= j < s.len() ==> !occurs_at(s, pattern, j),
    ensures
        replaced_from(s, pattern, to, i) == s.subrange(i as int, s.len() as int),
    decreases s.len() - i,
{
    if i < s.len() {
        replace_without_match(s, pattern, to, i + 1);
        assert(s.subrange(i as int, s.len() as int) =~= seq![s[i as int]] + s.subrange(
            (i + 1) as int,
            s.len() as int,
        ));
    } else {
        assert(s.subrange(i as int, s.len() as int) =~= Seq::<char>::empty());
    }
}

/// A character folded to ASCII lower case, as a code point (what
/// `to_ascii_lowercase` does: only `A`..=`Z` change).
pub open spec fn ascii_folded(c: char) -> u32 {
    if 'A' <= c && c <= 'Z' {
        (c as u32 + 32) as u32
    } else {
        c as u32
    }
}

/// The two texts are equal ignoring ASCII case (`str::eq_ignore_ascii_case`).
pub open spec fn eq_ignoring_ascii_case(a: Seq<char>, b: Seq<char>) -> bool {
    &&& a.len() == b.len()
    &&& forall|i: int| 0 <= i < a.len() ==> ascii_folded(#[trigger] a[i]) == ascii_folded(b[i])
}

fn fold_ascii(c: char) -> (r: u32)
    ensures
        r == ascii_folded(c),
{
    if 'A' <= c && c <= 'Z' {
        c as u32 + 32
    } else {
        c as u32
    }
}

/// Whether `a` and `b` are equal ignoring ASCII case.
pub fn equal_ignoring_ascii_case(a: &str, b: &str) -> (r: bool)
    ensures
        r == eq_ignoring_ascii_case(a@, b@),
{
    let va = chars_of(a);
    let vb = chars_of(b);
    if va.len() != vb.len() {
        return false;
    }
    let mut i: usize = 0;
    while i < va.len()
        invariant
            va@ == a@,
            vb@ == b@,
            va@.len() == vb@.len(),
            i <= va@.len(),
            forall|j: int| 0 <= j < i ==> ascii_folded(#[trigger] va@[j]) == ascii_folded(vb@[j]),
        decreases va@.len() - i,
    {
        if fold_ascii(va[i]) != fold_ascii(vb[i]) {
            return false;
        }
        i = i + 1;
    }
    true
}

} // verus!

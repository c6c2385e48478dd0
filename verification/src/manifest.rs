//! Reading the binary target names out of a Cargo manifest: the `name` of
//! every `[[bin]]` section, in order.
use vstd::prelude::*;
use crate::text::{chars_of, is_whitespace, occurs_at, occurs_at_exec, push_range, string_of, unicode_whitespace};

verus! {

/// `line` without one trailing carriage return.
pub open spec fn without_cr(line: Seq<char>) -> Seq<char> {
    if line.len() > 0 && line.last() == '\r' {
        line.drop_last()
    } else {
        line
    }
}

/// The lines of `s[start..]`, scanning from `i`: lines end at `\n` (a `\r`
/// before it is dropped), and a last line without a line ending still
/// counts, while a text ending in `\n` has no empty last line.
pub open spec fn lines_from(s: Seq<char>, start: nat, i: nat) -> Seq<Seq<char>>
    decreases s.len() - i,
{
    if i >= s.len() {
        if start < s.len() {
            seq![s.subrange(start as int, s.len() as int)]
        } else {
            Seq::empty()
        }
    } else if s[i as int] == '\n' {
        seq![without_cr(s.subrange(start as int, i as int))] + lines_from(s, i + 1, i + 1)
    } else {
        lines_from(s, start, i + 1)
    }
}

/// The lines of `s`, as `str::lines` yields them.
pub open spec fn lines_of(s: Seq<char>) -> Seq<Seq<char>> {
    lines_from(s, 0, 0)
}

/// The first position at or after `i` that holds `c`, or the length of `s`.
pub open spec fn first_from(s: Seq<char>, c: char, i: nat) -> nat
    decreases s.len() - i,
{
    if i >= s.len() {
        s.len()
    } else if s[i as int] == c {
        i
    } else {
        first_from(s, c, i + 1)
    }
}

/// The part of `line` before its first `#`.
pub open spec fn before_comment(line: Seq<char>) -> Seq<char> {
    line.subrange(0, first_from(line, '#', 0) as int)
}

/// The end of the run of whitespace that starts at `i`.
pub open spec fn leading_ws_end(s: Seq<char>, i: nat) -> nat
    decreases s.len() - i,
{
    if i < s.len() && unicode_whitespace(s[i as int]) {
        leading_ws_end(s, i + 1)
    } else {
        i
    }
}

/// The start of the run of whitespace that ends at `j`, not going below `lo`.
pub open spec fn trailing_ws_start(s: Seq<char>, lo: nat, j: nat) -> nat
    decreases j,
{
    if lo < j && unicode_whitespace(s[j - 1]) {
        trailing_ws_start(s, lo, (j - 1) as nat)
    } else {
        j
    }
}

/// `s` without leading and trailing whitespace (`str::trim`).
pub open spec fn trimmed(s: Seq<char>) -> Seq<char> {
    let a = leading_ws_end(s, 0);
    s.subrange(a as int, trailing_ws_start(s, a, s.len()) as int)
}

/// The text after the first `=` of `line`, if it has one.
pub open spec fn after_equals(line: Seq<char>) -> Option<Seq<char>> {
    let e = first_from(line, '=', 0);
    if e < line.len() {
        Some(line.subrange((e + 1) as int, line.len() as int))
    } else {
        None
    }
}

/// The text between the double quotes that begin and end `v`.
pub open spec fn unquoted(v: Seq<char>) -> Option<Seq<char>> {
    if v.len() >= 2 && v[0] == '"' && v.last() == '"' {
        Some(v.subrange(1, v.len() - 1))
    } else {
        None
    }
}

/// The binary name that a `name = "..."` line gives.
pub open spec fn name_value(line: Seq<char>) -> Option<Seq<char>> {
    match after_equals(line) {
        Some(v) => unquoted(trimmed(v)),
        None => None,
    }
}

/// What one manifest line does: whether a `[[bin]]` section is open after
/// it, and the binary name it gives, if any.
pub open spec fn line_step(raw: Seq<char>, in_bin: bool) -> (bool, Option<Seq<char>>) {
    let line = trimmed(before_comment(raw));
    if line.len() == 0 {
        (in_bin, None)
    } else if line == "[[bin]]"@ {
        (true, None)
    } else if line[0] == '[' {
        (false, None)
    } else if !in_bin || !occurs_at(line, "name"@, 0) {
        (in_bin, None)
    } else {
        (in_bin, name_value(line))
    }
}

/// The binary names that `lines` give, starting inside a `[[bin]]` section
/// or not.
pub open spec fn bin_names_of(lines: Seq<Seq<char>>, in_bin: bool) -> Seq<Seq<char>>
    decreases lines.len(),
{
    if lines.len() == 0 {
        Seq::empty()
    } else {
        let (next_in_bin, found) = line_step(lines[0], in_bin);
        let rest = bin_names_of(lines.drop_first(), next_in_bin);
        match found {
            Some(n) => seq![n] + rest,
            None => rest,
        }
    }
}

/// The binary names of a manifest.
pub open spec fn manifest_bin_names(manifest: Seq<char>) -> Seq<Seq<char>> {
    bin_names_of(lines_of(manifest), false)
}

fn first_index(s: &Vec<char>, c: char, from: usize) -> (r: usize)
    requires
        from <= s@.len(),
    ensures
        r == first_from(s@, c, from as nat),
    decreases s@.len() - from,
{
    if from >= s.len() {
        s.len()
    } else if s[from] == c {
        from
    } else {
        first_index(s, c, from + 1)
    }
}

proof fn lemma_first_from_bounds(s: Seq<char>, c: char, i: nat)
    requires
        i <= s.len(),
    ensures
        i <= first_from(s, c, i) <= s.len(),
    decreases s.len() - i,
{
    if i < s.len() && s[i as int] != c {
        lemma_first_from_bounds(s, c, i + 1);
    }
}

proof fn lemma_leading_bounds(s: Seq<char>, i: nat)
    requires
        i <= s.len(),
    ensures
        i <= leading_ws_end(s, i) <= s.len(),
    decreases s.len() - i,
{
    if i < s.len() && unicode_whitespace(s[i as int]) {
        lemma_leading_bounds(s, i + 1);
    }
}

proof fn lemma_trailing_bounds(s: Seq<char>, lo: nat, j: nat)
    requires
        lo <= j,
    ensures
        lo <= trailing_ws_start(s, lo, j) <= j,
    decreases j,
{
    if lo < j && unicode_whitespace(s[j - 1]) {
        lemma_trailing_bounds(s, lo, (j - 1) as nat);
    }
}

fn trim_chars(s: &Vec<char>) -> (r: Vec<char>)
    ensures
        r@ == trimmed(s@),
{
    let mut a: usize = 0;
    while a < s.len() && is_whitespace(s[a])
        invariant
            a <= s@.len(),
            leading_ws_end(s@, a as nat) == leading_ws_end(s@, 0),
        decreases s@.len() - a,
    {
        a = a + 1;
    }
    let mut j: usize = s.len();
    while a < j && is_whitespace(s[j - 1])
        invariant
            a <= j <= s@.len(),
            a == leading_ws_end(s@, 0),
            trailing_ws_start(s@, a as nat, j as nat) == trailing_ws_start(s@, a as nat, s@.len()),
        decreases j,
    {
        j = j - 1;
    }
    let mut out: Vec<char> = Vec::new();
    push_range(&mut out, s, a, j);
    out
}

/// The name of one `[[bin]]` line, following `line_step`.
fn step_line(raw: &Vec<char>, in_bin: bool) -> (r: (bool, Option<Vec<char>>))
    ensures
        r.0 == line_step(raw@, in_bin).0,
        match r.1 {
            Some(v) => line_step(raw@, in_bin).1 == Some(v@),
            None => line_step(raw@, in_bin).1 is None,
        },
{
    proof {
        reveal_strlit("[[bin]]");
        reveal_strlit("name");
        lemma_first_from_bounds(raw@, '#', 0);
    }
    let hash = first_index(raw, '#', 0);
    let mut kept: Vec<char> = Vec::new();
    push_range(&mut kept, raw, 0, hash);
    let line = trim_chars(&kept);
    if line.len() == 0 {
        return (in_bin, None);
    }
    let section = chars_of("[[bin]]");
    if crate::text::chars_equal(&line, &section) {
        return (true, None);
    }
    if line[0] == '[' {
        return (false, None);
    }
    let key = chars_of("name");
    if !in_bin || !occurs_at_exec(&line, &key, 0) {
        return (in_bin, None);
    }
    proof {
        lemma_first_from_bounds(line@, '=', 0);
    }
    let eq = first_index(&line, '=', 0);
    if eq >= line.len() {
        return (in_bin, None);
    }
    let mut value: Vec<char> = Vec::new();
    push_range(&mut value, &line, eq + 1, line.len());
    let value = trim_chars(&value);
    if value.len() >= 2 && value[0] == '"' && value[value.len() - 1] == '"' {
        let mut name: Vec<char> = Vec::new();
        push_range(&mut name, &value, 1, value.len() - 1);
        (in_bin, Some(name))
    } else {
        (in_bin, None)
    }
}

/// The `name` of every `[[bin]]` section of a Cargo manifest, in order. A
/// line counts after its `#` comment and surrounding whitespace are removed;
/// a section header other than `[[bin]]` closes the bin section, and only a
/// line that starts with `name` and has a double-quoted value after its `=`
/// gives a name.
pub fn parse_bin_names(manifest: &str) -> (r: Vec<String>)
    ensures
        r@.len() == manifest_bin_names(manifest@).len(),
        forall|i: int| 0 <= i < r@.len() ==> #[trigger] r@[i]@ == manifest_bin_names(manifest@)[i],
{
    let s = chars_of(manifest);
    let mut names: Vec<String> = Vec::new();
    let mut in_bin = false;
    let mut start: usize = 0;
    let mut i: usize = 0;
    let ghost done: Seq<Seq<char>> = Seq::empty();
    while i < s.len()
        invariant
            s@ == manifest@,
            start <= i <= s@.len(),
            names@.len() == done.len(),
            forall|k: int| 0 <= k < names@.len() ==> #[trigger] names@[k]@ == done[k],
            done + bin_names_of(lines_from(s@, start as nat, i as nat), in_bin)
                == manifest_bin_names(manifest@),
        decreases s@.len() - i,
    {
        if s[i] == '\n' {
            let mut line: Vec<char> = Vec::new();
            let end = if i > start && s[i - 1] == '\r' {
                i - 1
            } else {
                i
            };
            push_range(&mut line, &s, start, end);
            let ghost rest = lines_from(s@, (i + 1) as nat, (i + 1) as nat);
            assert(line@ == without_cr(s@.subrange(start as int, i as int)));
            let ghost lines = lines_from(s@, start as nat, i as nat);
            assert(lines =~= seq![line@] + rest);
            assert(lines[0] == line@);
            assert(lines.drop_first() =~= rest);
            let (next_in_bin, found) = step_line(&line, in_bin);
            match found {
                Some(n) => {
                    proof {
                        done = done + seq![n@];
                    }
                    names.push(string_of(&n));
                },
                None => {},
            }
            in_bin = next_in_bin;
            start = i + 1;
        }
        i = i + 1;
    }
    if start < s.len() {
        let mut line: Vec<char> = Vec::new();
        push_range(&mut line, &s, start, s.len());
        let ghost lines = lines_from(s@, start as nat, i as nat);
        assert(lines =~= seq![line@]);
        assert(lines.drop_first() =~= Seq::<Seq<char>>::empty());
        let (next_in_bin, found) = step_line(&line, in_bin);
        assert(bin_names_of(Seq::<Seq<char>>::empty(), next_in_bin) =~= Seq::<Seq<char>>::empty());
        match found {
            Some(n) => {
                assert(bin_names_of(lines, in_bin) =~= seq![n@]);
                proof {
                    done = done + seq![n@];
                }
                names.push(string_of(&n));
            },
            None => {
                assert(bin_names_of(lines, in_bin) =~= Seq::<Seq<char>>::empty());
            },
        }
    } else {
        assert(lines_from(s@, start as nat, i as nat) =~= Seq::<Seq<char>>::empty());
    }
    assert(done =~= manifest_bin_names(manifest@));
    names
}

} // verus!

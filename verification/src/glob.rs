//! Filename patterns: `*` stands for any run of characters, `?` for one.

use vstd::prelude::*;
use crate::text::{
    chars_of, has_char, join3, last_index, lemma_last_index, sort_strings, sorted, string_of,
};

verus! {

/// True when the text holds a pattern character.
pub open spec fn spec_has_glob_chars(s: Seq<char>) -> bool {
    s.contains('*') || s.contains('?') || s.contains('[')
}

/// Check if a string contains glob characters.
pub fn has_glob_chars(s: &str) -> (r: bool)
    ensures
        r == spec_has_glob_chars(s@),
{
    has_char(s, '*') || has_char(s, '?') || has_char(s, '[')
}

/// What it means for a text to match a pattern: `*` matches any run of
/// characters, also an empty one; `?` matches exactly one character; any
/// other character matches itself.
pub open spec fn spec_glob_matches(pat: Seq<char>, txt: Seq<char>) -> bool
    decreases pat.len(), txt.len(),
{
    if pat.len() == 0 {
        txt.len() == 0
    } else if pat[0] == '*' {
        spec_glob_matches(pat.skip(1), txt) || (txt.len() > 0 && spec_glob_matches(
            pat,
            txt.skip(1),
        ))
    } else if pat[0] == '?' {
        txt.len() > 0 && spec_glob_matches(pat.skip(1), txt.skip(1))
    } else {
        txt.len() > 0 && txt[0] == pat[0] && spec_glob_matches(pat.skip(1), txt.skip(1))
    }
}

/// Matches `txt[ti..]` against `pat[pi..]`.
pub fn glob_match_helper(pat: &[char], txt: &[char], pi: usize, ti: usize) -> (r: bool)
    requires
        pi <= pat.len(),
        ti <= txt.len(),
    ensures
        r == spec_glob_matches(pat@.skip(pi as int), txt@.skip(ti as int)),
    decreases pat.len() - pi, txt.len() - ti,
{
    proof {
        if pi < pat.len() {
            assert(pat@.skip(pi as int).skip(1) =~= pat@.skip(pi + 1));
        }
        if ti < txt.len() {
            assert(txt@.skip(ti as int).skip(1) =~= txt@.skip(ti + 1));
        }
    }
    if pi == pat.len() {
        return ti == txt.len();
    }
    let c = pat[pi];
    if c == '*' {
        glob_match_helper(pat, txt, pi + 1, ti) || (ti < txt.len() && glob_match_helper(
            pat,
            txt,
            pi,
            ti + 1,
        ))
    } else if c == '?' {
        ti < txt.len() && glob_match_helper(pat, txt, pi + 1, ti + 1)
    } else {
        ti < txt.len() && txt[ti] == c && glob_match_helper(pat, txt, pi + 1, ti + 1)
    }
}

/// Simple glob matching: `*` matches any sequence, `?` matches one char.
pub fn glob_matches(pattern: &str, text: &str) -> (r: bool)
    ensures
        r == spec_glob_matches(pattern@, text@),
{
    let pat = chars_of(pattern);
    let txt = chars_of(text);
    assert(pat@.skip(0) =~= pat@ && txt@.skip(0) =~= txt@);
    glob_match_helper(pat.as_slice(), txt.as_slice(), 0, 0)
}

/// The directory to list for a pattern: what stands before its last `/`, or
/// `.` where it has none.
pub open spec fn glob_dir(pattern: Seq<char>) -> Seq<char> {
    let k = last_index(pattern, '/');
    if k < 0 {
        "."@
    } else {
        pattern.take(k)
    }
}

/// The part of a pattern that file names are matched against: what follows
/// its last `/`.
pub open spec fn glob_file_pattern(pattern: Seq<char>) -> Seq<char> {
    let k = last_index(pattern, '/');
    if k < 0 {
        pattern
    } else {
        pattern.skip(k + 1)
    }
}

/// Splits a pattern into the directory to list and the pattern for its entries.
pub fn split_pattern(pattern: &str) -> (r: (String, String))
    ensures
        r.0@ == glob_dir(pattern@),
        r.1@ == glob_file_pattern(pattern@),
{
    let v = chars_of(pattern);
    let mut k: usize = v.len();
    while k > 0 && v[k - 1] != '/'
        invariant
            k <= v.len(),
            forall|i: int| k <= i < v.len() ==> v@[i] != '/',
        decreases k,
    {
        k = k - 1;
    }
    proof {
        lemma_last_index(v@, '/', k as int - 1);
    }
    if k == 0 {
        assert(v@.subrange(0, v.len() as int) =~= v@);
        (".".to_string(), string_of(&v, 0, v.len()))
    } else {
        assert(v@.subrange(0, k - 1) =~= v@.take(k - 1));
        assert(v@.subrange(k as int, v.len() as int) =~= v@.skip(k as int));
        (string_of(&v, 0, k - 1), string_of(&v, k, v.len()))
    }
}

/// The names that match, in the order given.
pub open spec fn matching(names: Seq<Seq<char>>, pattern: Seq<char>) -> Seq<Seq<char>> {
    names.filter(|name: Seq<char>| spec_glob_matches(pattern, name))
}

/// Each name behind `dir` and a slash, unless `dir` is `.`.
pub open spec fn in_dir(dir: Seq<char>, names: Seq<Seq<char>>) -> Seq<Seq<char>> {
    if dir == "."@ {
        names
    } else {
        names.map_values(|name: Seq<char>| dir + "/"@ + name)
    }
}

/// What a pattern expands to, given the names of the entries of its
/// directory: those that match, in order, each with the directory in front
/// unless that is `.`.
pub open spec fn glob_results(names: Seq<Seq<char>>, dir: Seq<char>, pattern: Seq<char>) -> Seq<
    Seq<char>,
> {
    in_dir(dir, sorted(matching(names, pattern)))
}

/// Expand a pattern against the names of the entries of its directory.
pub fn expand_names(names: &Vec<String>, dir: &str, pattern: &str) -> (r: Vec<String>)
    ensures
        r.deep_view() == glob_results(names.deep_view(), dir@, pattern@),
{
    let ghost pred = |name: Seq<char>| spec_glob_matches(pattern@, name);
    let mut found: Vec<String> = Vec::new();
    let mut i: usize = 0;
    assert(names.deep_view().take(0) =~= Seq::<Seq<char>>::empty());
    assert(found.deep_view() =~= Seq::<Seq<char>>::empty());
    while i < names.len()
        invariant
            i <= names.len(),
            pred == (|name: Seq<char>| spec_glob_matches(pattern@, name)),
            found.deep_view() == names.deep_view().take(i as int).filter(pred),
        decreases names.len() - i,
    {
        let ghost before = found.deep_view();
        proof {
            let t = names.deep_view().take(i + 1);
            assert(t.drop_last() =~= names.deep_view().take(i as int));
            assert(t.last() == names@[i as int]@);
            reveal(Seq::filter);
        }
        if glob_matches(pattern, names[i].as_str()) {
            found.push(names[i].clone());
            assert(found.deep_view() =~= before.push(names@[i as int]@));
        }
        i = i + 1;
    }
    assert(names.deep_view().take(names.len() as int) =~= names.deep_view());
    let found = sort_strings(found);
    if crate::text::str_eq(dir, ".") {
        found
    } else {
        let mut r: Vec<String> = Vec::new();
        let mut k: usize = 0;
        while k < found.len()
            invariant
                k <= found.len(),
                r.len() == k,
                forall|j: int| 0 <= j < k ==> r@[j]@ == dir@ + "/"@ + found@[j]@,
            decreases found.len() - k,
        {
            r.push(join3(dir, "/", found[k].as_str()));
            k = k + 1;
        }
        assert(r.deep_view() =~= in_dir(dir@, found.deep_view()));
        r
    }
}

} // verus!

//! Continuation detection: does the text typed so far leave a construct
//! open, so that another line has to be read before it is evaluated?

use vstd::prelude::*;
use crate::text::{chars_of, is_space, is_whitespace, push_char, str_eq};

verus! {

/// How many double quotes a text holds.
pub open spec fn count_quotes(s: Seq<char>) -> nat
    decreases s.len(),
{
    if s.len() == 0 {
        0
    } else if s.last() == '"' {
        count_quotes(s.drop_last()) + 1
    } else {
        count_quotes(s.drop_last())
    }
}

/// Where the word extraction stands after part of a text.
pub struct Gleaning {
    pub words: Seq<Seq<char>>,
    pub current: Seq<char>,
    pub in_quote: bool,
}

impl Gleaning {
    /// The words, with the one being read if it has any character.
    pub open spec fn flushed(self) -> Seq<Seq<char>> {
        if self.current.len() > 0 {
            self.words.push(self.current)
        } else {
            self.words
        }
    }

    /// The effect of one more character: a double quote opens or closes a
    /// quoted region and is itself dropped; what is inside a quoted region
    /// is dropped; whitespace ends a word; anything else belongs to a word.
    pub open spec fn feed(self, c: char) -> Gleaning {
        if c == '"' {
            Gleaning { in_quote: !self.in_quote, ..self }
        } else if self.in_quote {
            self
        } else if is_whitespace(c) {
            Gleaning { words: self.flushed(), current: Seq::empty(), ..self }
        } else {
            Gleaning { current: self.current.push(c), ..self }
        }
    }
}

/// Where the word extraction stands after all of `s`.
pub open spec fn glean(s: Seq<char>) -> Gleaning
    decreases s.len(),
{
    if s.len() == 0 {
        Gleaning { words: Seq::empty(), current: Seq::empty(), in_quote: false }
    } else {
        glean(s.drop_last()).feed(s.last())
    }
}

/// The words of a text that stand outside double quotes.
pub open spec fn spec_extract_words(text: Seq<char>) -> Seq<Seq<char>> {
    glean(text).flushed()
}

/// Extract words from text, skipping content inside double quotes.
pub fn extract_words(text: &str) -> (words: Vec<String>)
    ensures
        words.deep_view() == spec_extract_words(text@),
{
    let v = chars_of(text);
    let mut words: Vec<String> = Vec::new();
    let mut current = String::new();
    let mut in_quote = false;
    let mut i: usize = 0;
    assert(v@.take(0) =~= Seq::<char>::empty());
    assert(words.deep_view() =~= Seq::<Seq<char>>::empty());
    while i < v.len()
        invariant
            i <= v.len(),
            glean(v@.take(i as int)) == (Gleaning {
                words: words.deep_view(),
                current: current@,
                in_quote,
            }),
        decreases v.len() - i,
    {
        let c = v[i];
        let ghost before = glean(v@.take(i as int));
        proof {
            assert(v@.take(i + 1).drop_last() =~= v@.take(i as int));
            assert(v@.take(i + 1).last() == c);
        }
        if c == '"' {
            in_quote = !in_quote;
        } else if in_quote {
        } else if is_space(c) {
            if !current.as_str().is_empty() {
                words.push(current);
                current = String::new();
            }
        } else {
            push_char(&mut current, c);
        }
        assert(words.deep_view() =~= before.feed(c).words);
        assert(current@ =~= before.feed(c).current);
        i = i + 1;
    }
    assert(v@.take(v.len() as int) =~= v@);
    let ghost last = glean(v@);
    if !current.as_str().is_empty() {
        words.push(current);
    }
    assert(words.deep_view() =~= last.flushed());
    words
}

/// The kinds of construct that can be left open.
#[derive(Clone, Copy, Debug, PartialEq, Eq, Structural)]
pub enum Construct {
    /// `:` … `;`
    Definition,
    /// `begin` … `until` or `repeat`
    Begin,
    /// `do` … `loop` or `+loop`
    Do,
    /// `if` or `each` … `then`
    Conditional,
}

/// What a word counts for a kind of construct: 1 if it opens one, -1 if
/// it closes one, 0 otherwise.
pub open spec fn weight(kind: Construct, word: Seq<char>) -> int {
    match kind {
        Construct::Definition => if word == ":"@ {
            1
        } else if word == ";"@ {
            -1
        } else {
            0
        },
        Construct::Begin => if word == "begin"@ {
            1
        } else if word == "until"@ || word == "repeat"@ {
            -1
        } else {
            0
        },
        Construct::Do => if word == "do"@ {
            1
        } else if word == "loop"@ || word == "+loop"@ {
            -1
        } else {
            0
        },
        Construct::Conditional => if word == "if"@ || word == "each"@ {
            1
        } else if word == "then"@ {
            -1
        } else {
            0
        },
    }
}

/// How many constructs of a kind the words open, less how many they close.
pub open spec fn balance(kind: Construct, words: Seq<Seq<char>>) -> int
    decreases words.len(),
{
    if words.len() == 0 {
        0
    } else {
        balance(kind, words.drop_last()) + weight(kind, words.last())
    }
}

/// A text is incomplete when it holds an odd number of double quotes, or
/// when its words outside quotes open more constructs of some kind than
/// they close.
pub open spec fn spec_is_incomplete(text: Seq<char>) -> bool {
    let words = spec_extract_words(text);
    count_quotes(text) % 2 != 0 || balance(Construct::Definition, words) > 0 || balance(
        Construct::Begin,
        words,
    ) > 0 || balance(Construct::Do, words) > 0 || balance(Construct::Conditional, words) > 0
}

fn odd_quotes(text: &str) -> (r: bool)
    ensures
        r == (count_quotes(text@) % 2 != 0),
{
    let v = chars_of(text);
    let mut odd = false;
    let mut i: usize = 0;
    assert(v@.take(0) =~= Seq::<char>::empty());
    while i < v.len()
        invariant
            i <= v.len(),
            odd == (count_quotes(v@.take(i as int)) % 2 != 0),
        decreases v.len() - i,
    {
        proof {
            assert(v@.take(i + 1).drop_last() =~= v@.take(i as int));
            assert(v@.take(i + 1).last() == v@[i as int]);
        }
        if v[i] == '"' {
            odd = !odd;
        }
        i = i + 1;
    }
    assert(v@.take(v.len() as int) =~= v@);
    odd
}

/// Check whether the given input text is incomplete and needs continuation lines.
///
/// Returns `true` if the input has:
/// - Unclosed double quotes (odd count of `"`)
/// - Unbalanced `:` vs `;`
/// - Unbalanced `begin` vs `until`/`repeat`
/// - Unbalanced `do` vs `loop`/`+loop`
/// - Unbalanced `if`/`each` vs `then`
pub fn is_incomplete(text: &str) -> (r: bool)
    ensures
        r == spec_is_incomplete(text@),
{
    // Check unclosed quotes: odd number of double-quotes
    if odd_quotes(text) {
        return true;
    }
    // Tokenize by whitespace for keyword balancing (ignore quoted regions)
    let words = extract_words(text);
    let mut colon_depth: i128 = 0;
    let mut begin_depth: i128 = 0;
    let mut do_depth: i128 = 0;
    let mut if_each_depth: i128 = 0;
    let mut i: usize = 0;
    let ghost all = words.deep_view();
    assert(all.take(0) =~= Seq::<Seq<char>>::empty());
    while i < words.len()
        invariant
            i <= words.len(),
            all == words.deep_view(),
            colon_depth == balance(Construct::Definition, all.take(i as int)),
            begin_depth == balance(Construct::Begin, all.take(i as int)),
            do_depth == balance(Construct::Do, all.take(i as int)),
            if_each_depth == balance(Construct::Conditional, all.take(i as int)),
            -i <= colon_depth <= i,
            -i <= begin_depth <= i,
            -i <= do_depth <= i,
            -i <= if_each_depth <= i,
        decreases words.len() - i,
    {
        proof {
            assert(all.take(i + 1).drop_last() =~= all.take(i as int));
            assert(all.take(i + 1).last() == words@[i as int]@);
        }
        let word = words[i].as_str();
        if str_eq(word, ":") {
            colon_depth = colon_depth + 1;
        } else if str_eq(word, ";") {
            colon_depth = colon_depth - 1;
        }
        if str_eq(word, "begin") {
            begin_depth = begin_depth + 1;
        } else if str_eq(word, "until") || str_eq(word, "repeat") {
            begin_depth = begin_depth - 1;
        }
        if str_eq(word, "do") {
            do_depth = do_depth + 1;
        } else if str_eq(word, "loop") || str_eq(word, "+loop") {
            do_depth = do_depth - 1;
        }
        if str_eq(word, "if") || str_eq(word, "each") {
            if_each_depth = if_each_depth + 1;
        } else if str_eq(word, "then") {
            if_each_depth = if_each_depth - 1;
        }
        i = i + 1;
    }
    assert(all.take(words.len() as int) =~= all);
    colon_depth > 0 || begin_depth > 0 || do_depth > 0 || if_each_depth > 0
}

} // verus!

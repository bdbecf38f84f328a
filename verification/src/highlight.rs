//! What the line editor needs of the interpreter: colours for a line that
//! is being typed, the word under the cursor, and the dictionary words that
//! complete it.

use vstd::prelude::*;
use crate::text::{
    byte_len, chars_of, chars_within, chars_within_from, parse_int, sort_strings, sorted, str_eq,
    string_of, to_int,
};
use crate::tokenizer::{byte_offsets, in_sequence, spans_of, spec_spans, SpanModel};

verus! {

// ========== Highlighter ==========

/// ANSI color codes.
pub const YELLOW: &'static str = "\x1b[33m";

/// The colour of keywords.
pub const MAGENTA: &'static str = "\x1b[35m";

/// The colour of numbers.
pub const CYAN: &'static str = "\x1b[36m";

/// The colour of dictionary words.
pub const GREEN: &'static str = "\x1b[32m";

/// The code that ends a colour.
pub const RESET: &'static str = "\x1b[0m";

/// Keywords that get magenta highlighting.
pub open spec fn is_keyword(text: Seq<char>) -> bool {
    text == ":"@ || text == ";"@ || text == "if"@ || text == "else"@ || text == "then"@ || text
        == "begin"@ || text == "until"@ || text == "while"@ || text == "repeat"@ || text == "do"@
        || text == "loop"@ || text == "+loop"@ || text == "each"@ || text == "exit"@ || text
        == "quit"@
}

fn keyword(text: &str) -> (r: bool)
    ensures
        r == is_keyword(text@),
{
    str_eq(text, ":") || str_eq(text, ";") || str_eq(text, "if") || str_eq(text, "else") || str_eq(
        text,
        "then",
    ) || str_eq(text, "begin") || str_eq(text, "until") || str_eq(text, "while") || str_eq(
        text,
        "repeat",
    ) || str_eq(text, "do") || str_eq(text, "loop") || str_eq(text, "+loop") || str_eq(
        text,
        "each",
    ) || str_eq(text, "exit") || str_eq(text, "quit")
}

/// True when the list holds the text.
pub fn has_word(words: &Vec<String>, text: &str) -> (r: bool)
    ensures
        r == words.deep_view().contains(text@),
{
    let mut i: usize = 0;
    while i < words.len()
        invariant
            i <= words.len(),
            forall|k: int| 0 <= k < i ==> words.deep_view()[k] != text@,
        decreases words.len() - i,
    {
        if str_eq(words[i].as_str(), text) {
            assert(words.deep_view()[i as int] == text@);
            return true;
        }
        i = i + 1;
    }
    false
}

/// The colour of a token, if it has one: yellow for a quoted string,
/// magenta for a keyword, cyan for a number, green for a word of the
/// dictionary, in this order of precedence.
pub open spec fn colour(span: SpanModel, words: Seq<Seq<char>>) -> Option<Seq<char>> {
    if span.quoted {
        Some(YELLOW@)
    } else if is_keyword(span.text) {
        Some(MAGENTA@)
    } else if parse_int(span.text) is Some {
        Some(CYAN@)
    } else if words.contains(span.text) {
        Some(GREEN@)
    } else {
        None
    }
}

/// A token as it is shown: the part of the line it was read from, between
/// its colour and the reset code if it has a colour.
pub open spec fn paint(line: Seq<char>, span: SpanModel, words: Seq<Seq<char>>) -> Seq<char> {
    let shown = line.subrange(span.start as int, span.end as int);
    match colour(span, words) {
        Some(code) => code + shown + RESET@,
        None => shown,
    }
}

/// Where the token before number `k` ends, the start of the line for the
/// first one.
pub open spec fn end_before(spans: Seq<SpanModel>, k: int) -> int {
    if k <= 0 {
        0
    } else {
        spans[k - 1].end as int
    }
}

/// The line up to the end of its first `k` tokens, as it is shown: each
/// token painted, what stands between tokens as it is.
pub open spec fn painted(line: Seq<char>, spans: Seq<SpanModel>, words: Seq<Seq<char>>, k: int) -> Seq<
    char,
>
    decreases k,
{
    if k <= 0 {
        Seq::empty()
    } else {
        painted(line, spans, words, k - 1) + line.subrange(
            end_before(spans, k - 1),
            spans[k - 1].start as int,
        ) + paint(line, spans[k - 1], words)
    }
}

/// A line as it is shown while it is typed. A line without tokens is
/// shown as it is.
pub open spec fn spec_highlight(line: Seq<char>, words: Seq<Seq<char>>) -> Seq<char> {
    let spans = spec_spans(line);
    if spans.len() == 0 {
        line
    } else {
        painted(line, spans, words, spans.len() as int) + line.subrange(
            end_before(spans, spans.len() as int),
            line.len() as int,
        )
    }
}

/// Colours a line: strings yellow, keywords magenta, numbers cyan, words
/// of the dictionary green.
pub fn highlight(line: &str, dict_words: &Vec<String>) -> (r: String)
    ensures
        r@ == spec_highlight(line@, dict_words.deep_view()),
{
    let v = chars_of(line);
    let spans = spans_of(&v);
    if spans.len() == 0 {
        return line.to_string();
    }
    let ghost words = dict_words.deep_view();
    let ghost all = spans.deep_view();
    let mut result = String::new();
    let mut last_end: usize = 0;
    let mut k: usize = 0;
    while k < spans.len()
        invariant
            k <= spans.len(),
            v@ == line@,
            all == spans.deep_view(),
            all == spec_spans(line@),
            words == dict_words.deep_view(),
            in_sequence(all, v.len() as int),
            last_end == end_before(all, k as int),
            last_end <= v.len(),
            result@ == painted(line@, all, words, k as int),
        decreases spans.len() - k,
    {
        let span = &spans[k];
        assert(all[k as int] == span@);
        proof {
            if k > 0 {
                assert(all[k - 1].end <= all[k as int].start);
            }
        }
        let ghost before = result@;
        // What stands between the token before and this one
        let gap = string_of(&v, last_end, span.start);
        result.append(gap.as_str());
        let token_text = string_of(&v, span.start, span.end);
        let ghost shown = line@.subrange(span.start as int, span.end as int);
        // Determine color
        if span.quoted {
            // Strings are yellow
            result.append(YELLOW);
            result.append(token_text.as_str());
            result.append(RESET);
            assert(result@ =~= before + gap@ + (YELLOW@ + shown + RESET@));
        } else if keyword(span.text.as_str()) {
            // Keywords are magenta
            result.append(MAGENTA);
            result.append(token_text.as_str());
            result.append(RESET);
            assert(result@ =~= before + gap@ + (MAGENTA@ + shown + RESET@));
        } else if to_int(span.text.as_str()).is_some() {
            // Numbers are cyan
            result.append(CYAN);
            result.append(token_text.as_str());
            result.append(RESET);
            assert(result@ =~= before + gap@ + (CYAN@ + shown + RESET@));
        } else if has_word(dict_words, span.text.as_str()) {
            // Dictionary words are green
            result.append(GREEN);
            result.append(token_text.as_str());
            result.append(RESET);
            assert(result@ =~= before + gap@ + (GREEN@ + shown + RESET@));
        } else {
            result.append(token_text.as_str());
            assert(result@ =~= before + gap@ + shown);
        }
        last_end = span.end;
        k = k + 1;
    }
    // Append any trailing text
    let tail = string_of(&v, last_end, v.len());
    result.append(tail.as_str());
    result
}

// ========== Completer ==========

/// The whitespace of ASCII: space, tab, line feed, form feed, carriage return.
pub open spec fn is_ascii_space(c: char) -> bool {
    c == ' ' || c == '\t' || c == '\n' || c == '\x0C' || c == '\r'
}

/// Where the word begins that ends with the text: behind its last
/// whitespace character, or at its start.
pub open spec fn word_start(text: Seq<char>) -> int
    decreases text.len(),
{
    if text.len() == 0 || is_ascii_space(text.last()) {
        text.len() as int
    } else {
        word_start(text.drop_last())
    }
}

/// The word in front of the cursor, which stands at byte offset `pos`: the
/// characters between the last whitespace before the cursor and the
/// cursor, with the byte offset at which they begin.
pub open spec fn spec_find_word_at(line: Seq<char>, pos: usize) -> (usize, Seq<char>) {
    let k = chars_within(line, pos);
    let start = word_start(line.take(k));
    (byte_len(line.take(start)) as usize, line.subrange(start, k))
}

/// Find the word being typed at the cursor position.
/// Returns (start_position, word).
pub fn find_word_at(line: &str, pos: usize) -> (r: (usize, String))
    ensures
        r.0 == spec_find_word_at(line@, pos).0,
        r.1@ == spec_find_word_at(line@, pos).1,
{
    let v = chars_of(line);
    let offsets = byte_offsets(line, &v);
    let mut k: usize = 0;
    while k < v.len() && offsets[k + 1] <= pos
        invariant
            k <= v.len(),
            v@ == line@,
            offsets.len() == v.len() + 1,
            forall|j: int| 0 <= j <= v.len() ==> offsets[j] == byte_len(line@.take(j)),
            chars_within(line@, pos) == chars_within_from(line@, pos, k as int),
        decreases v.len() - k,
    {
        k = k + 1;
    }
    let ghost typed = line@.take(k as int);
    let mut start: usize = k;
    assert(typed.take(k as int) =~= typed);
    while start > 0 && !(v[start - 1] == ' ' || v[start - 1] == '\t' || v[start - 1] == '\n' || v[start
        - 1] == '\x0C' || v[start - 1] == '\r')
        invariant
            start <= k <= v.len(),
            v@ == line@,
            typed == line@.take(k as int),
            word_start(typed) == word_start(typed.take(start as int)),
        decreases start,
    {
        assert(typed.take(start as int).drop_last() =~= typed.take(start - 1));
        start = start - 1;
    }
    proof {
        assert(typed.take(start as int).len() == start);
        assert(line@.take(start as int) =~= typed.take(start as int));
    }
    (offsets[start], string_of(&v, start, k))
}

/// True when `text` begins with `prefix`.
pub fn begins_with(text: &str, prefix: &str) -> (r: bool)
    ensures
        r == prefix@.is_prefix_of(text@),
{
    let t = chars_of(text);
    let p = chars_of(prefix);
    if p.len() > t.len() {
        return false;
    }
    let mut i: usize = 0;
    while i < p.len()
        invariant
            i <= p.len() <= t.len(),
            t@ == text@,
            p@ == prefix@,
            forall|k: int| 0 <= k < i ==> p@[k] == t@[k],
        decreases p.len() - i,
    {
        if p[i] != t[i] {
            proof {
                let head = t@.subrange(0, p@.len() as int);
                assert(head[i as int] == t@[i as int]);
                assert(p@[i as int] != head[i as int]);
                assert(p@ != head);
            }
            return false;
        }
        i = i + 1;
    }
    assert(p@ =~= t@.subrange(0, p@.len() as int));
    true
}

/// The words that complete what is typed: those that begin with it, in
/// the order of strings. Nothing completes an empty word.
pub open spec fn spec_complete_words(words: Seq<Seq<char>>, typed: Seq<char>) -> Seq<Seq<char>> {
    if typed.len() == 0 {
        Seq::empty()
    } else {
        sorted(words.filter(|w: Seq<char>| typed.is_prefix_of(w)))
    }
}

/// The dictionary words that complete the word being typed.
pub fn complete_words(words: &Vec<String>, typed: &str) -> (r: Vec<String>)
    ensures
        r.deep_view() == spec_complete_words(words.deep_view(), typed@),
{
    let mut found: Vec<String> = Vec::new();
    if typed.is_empty() {
        assert(found.deep_view() =~= Seq::<Seq<char>>::empty());
        return found;
    }
    let ghost pred = |w: Seq<char>| typed@.is_prefix_of(w);
    let mut i: usize = 0;
    assert(words.deep_view().take(0) =~= Seq::<Seq<char>>::empty());
    assert(found.deep_view() =~= Seq::<Seq<char>>::empty());
    while i < words.len()
        invariant
            i <= words.len(),
            pred == (|w: Seq<char>| typed@.is_prefix_of(w)),
            found.deep_view() == words.deep_view().take(i as int).filter(pred),
        decreases words.len() - i,
    {
        let ghost before = found.deep_view();
        proof {
            let t = words.deep_view().take(i + 1);
            assert(t.drop_last() =~= words.deep_view().take(i as int));
            assert(t.last() == words@[i as int]@);
            reveal(Seq::filter);
        }
        if begins_with(words[i].as_str(), typed) {
            found.push(words[i].clone());
            assert(found.deep_view() =~= before.push(words@[i as int]@));
        }
        i = i + 1;
    }
    assert(words.deep_view().take(words.len() as int) =~= words.deep_view());
    sort_strings(found)
}

/// A completion as it is offered: what is shown, and what is put in the
/// line.
pub type Candidate = (String, String);

/// Each word as a completion that is shown as it is put in the line.
pub open spec fn as_candidates(words: Seq<Seq<char>>) -> Seq<(Seq<char>, Seq<char>)> {
    words.map_values(|w: Seq<char>| (w, w))
}

/// The completions of dictionary words and of file names together. Where
/// no word completes what is typed, the file names are offered from where
/// they start. Otherwise the words come first and the file names follow,
/// all offered from where the word starts.
pub open spec fn spec_merge_completions(
    word_start: usize,
    words: Seq<Seq<char>>,
    file_start: usize,
    files: Seq<(Seq<char>, Seq<char>)>,
) -> (usize, Seq<(Seq<char>, Seq<char>)>) {
    if words.len() == 0 && files.len() > 0 {
        (file_start, files)
    } else {
        (word_start, as_candidates(words) + files)
    }
}

/// Puts the completions of dictionary words and of file names together.
pub fn merge_completions(
    word_start: usize,
    words: Vec<String>,
    file_start: usize,
    files: Vec<Candidate>,
) -> (r: (usize, Vec<Candidate>))
    ensures
        (r.0, r.1.deep_view()) == spec_merge_completions(
            word_start,
            words.deep_view(),
            file_start,
            files.deep_view(),
        ),
{
    if words.len() == 0 && files.len() > 0 {
        return (file_start, files);
    }
    let mut all: Vec<Candidate> = Vec::new();
    let mut i: usize = 0;
    while i < words.len()
        invariant
            i <= words.len(),
            all.len() == i,
            forall|k: int| 0 <= k < i ==> (#[trigger] all@[k]).0@ == words@[k]@ && all@[k].1@ == words@[k]@,
        decreases words.len() - i,
    {
        all.push((words[i].clone(), words[i].clone()));
        i = i + 1;
    }
    assert(all.deep_view() =~= as_candidates(words.deep_view()));
    let ghost head = all.deep_view();
    let mut files = files;
    let ghost tail = files.deep_view();
    all.append(&mut files);
    assert(all.deep_view() =~= head + tail);
    (word_start, all)
}

} // verus!

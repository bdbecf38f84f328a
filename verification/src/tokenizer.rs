//! The token source: splits a line of input into tokens, each marked quoted
//! or unquoted.

use vstd::prelude::*;
use crate::text::{
    byte_len, chars_of, is_space, is_whitespace, lemma_byte_len_prefix, lemma_byte_len_push, parse_int,
    push_char, to_int, width_of,
};

verus! {

/// A token with its quote status.
/// `text` is the token content, `quoted` indicates if it was inside double quotes.
#[derive(Debug)]
pub struct Token {
    pub text: String,
    pub quoted: bool,
}

/// The model of a [`Token`].
pub struct TokenModel {
    pub text: Seq<char>,
    pub quoted: bool,
}

impl DeepView for Token {
    type V = TokenModel;

    open spec fn deep_view(&self) -> TokenModel {
        TokenModel { text: self.text@, quoted: self.quoted }
    }
}

impl View for Token {
    type V = TokenModel;

    open spec fn view(&self) -> TokenModel {
        self.deep_view()
    }
}

impl Clone for Token {
    fn clone(&self) -> (r: Token)
        ensures
            r@ == self@,
    {
        Token { text: self.text.clone(), quoted: self.quoted }
    }
}

/// Where the tokenizer stands after part of a line: the tokens that are
/// complete, the characters of the one being read, and whether a quote is open.
pub struct Scan {
    pub tokens: Seq<TokenModel>,
    pub current: Seq<char>,
    pub in_quote: bool,
}

impl Scan {
    /// The complete tokens, and the one being read if it has any character.
    pub open spec fn flushed(self, quoted: bool) -> Seq<TokenModel> {
        if self.current.len() > 0 {
            self.tokens.push(TokenModel { text: self.current, quoted })
        } else {
            self.tokens
        }
    }

    /// The effect of one more character.
    pub open spec fn feed(self, c: char) -> Scan {
        if c == '"' && !self.in_quote {
            // A quote opens: what was being read is a token of its own.
            Scan { tokens: self.flushed(false), current: Seq::empty(), in_quote: true }
        } else if c == '"' {
            // The quote closes: a quoted token, even if empty.
            Scan {
                tokens: self.tokens.push(TokenModel { text: self.current, quoted: true }),
                current: Seq::empty(),
                in_quote: false,
            }
        } else if is_whitespace(c) && !self.in_quote {
            Scan { tokens: self.flushed(false), current: Seq::empty(), in_quote: false }
        } else {
            Scan { current: self.current.push(c), ..self }
        }
    }
}

/// Where the tokenizer stands after all of `s`.
pub open spec fn scan(s: Seq<char>) -> Scan
    decreases s.len(),
{
    if s.len() == 0 {
        Scan { tokens: Seq::empty(), current: Seq::empty(), in_quote: false }
    } else {
        scan(s.drop_last()).feed(s.last())
    }
}

/// The tokens of a line. Whitespace outside quotes separates tokens; a pair
/// of double quotes makes one quoted token of what stands between them, also
/// of nothing; a quote left open at the end of the line quotes what follows it.
pub open spec fn spec_tokenize(line: Seq<char>) -> Seq<TokenModel> {
    scan(line).flushed(scan(line).in_quote)
}

/// Tokenize a line of input with quote awareness.
pub fn tokenize(line: &str) -> (tokens: Vec<Token>)
    ensures
        tokens.deep_view() == spec_tokenize(line@),
{
    let v = chars_of(line);
    let mut tokens: Vec<Token> = Vec::new();
    let mut current = String::new();
    let mut in_quote = false;
    let mut i: usize = 0;
    assert(v@.take(0) =~= Seq::<char>::empty());
    assert(tokens.deep_view() =~= Seq::<TokenModel>::empty());
    while i < v.len()
        invariant
            i <= v.len(),
            scan(v@.take(i as int)) == (Scan {
                tokens: tokens.deep_view(),
                current: current@,
                in_quote,
            }),
        decreases v.len() - i,
    {
        let c = v[i];
        let ghost before = scan(v@.take(i as int));
        proof {
            assert(v@.take(i + 1).drop_last() =~= v@.take(i as int));
            assert(v@.take(i + 1).last() == c);
        }
        if c == '"' && !in_quote {
            if !current.as_str().is_empty() {
                tokens.push(Token { text: current, quoted: false });
                current = String::new();
            }
            in_quote = true;
        } else if c == '"' {
            tokens.push(Token { text: current, quoted: true });
            current = String::new();
            in_quote = false;
        } else if is_space(c) && !in_quote {
            if !current.as_str().is_empty() {
                tokens.push(Token { text: current, quoted: false });
                current = String::new();
            }
        } else {
            push_char(&mut current, c);
        }
        assert(tokens.deep_view() =~= before.feed(c).tokens);
        assert(current@ =~= before.feed(c).current);
        i = i + 1;
    }
    assert(v@.take(v.len() as int) =~= v@);
    let ghost last = scan(v@);
    if !current.as_str().is_empty() {
        tokens.push(Token { text: current, quoted: in_quote });
    }
    assert(tokens.deep_view() =~= last.flushed(last.in_quote));
    tokens
}

/// Check if a string represents an integer.
pub fn is_int(s: &str) -> (r: bool)
    ensures
        r == parse_int(s@).is_some(),
{
    to_int(s).is_some()
}

// ---------------------------------------------------------------------------
// Tokens with their places
// ---------------------------------------------------------------------------

/// A token with its position in the original input string.
/// Used by the syntax highlighter to map tokens back to byte offsets.
#[derive(Debug)]
pub struct TokenWithPosition {
    pub text: String,
    pub quoted: bool,
    /// Byte offset of the start of this token in the original input (including the opening quote for quoted tokens).
    pub position: usize,
}

/// The model of a [`TokenWithPosition`].
pub struct TokenWithPositionModel {
    pub text: Seq<char>,
    pub quoted: bool,
    pub position: usize,
}

impl DeepView for TokenWithPosition {
    type V = TokenWithPositionModel;

    open spec fn deep_view(&self) -> TokenWithPositionModel {
        TokenWithPositionModel { text: self.text@, quoted: self.quoted, position: self.position }
    }
}

impl View for TokenWithPosition {
    type V = TokenWithPositionModel;

    open spec fn view(&self) -> TokenWithPositionModel {
        self.deep_view()
    }
}

/// A token with the part of the line that it was read from: the characters
/// from `start` up to `end`, quotes included.
#[derive(Debug)]
pub struct Span {
    pub text: String,
    pub quoted: bool,
    pub start: usize,
    pub end: usize,
}

/// The model of a [`Span`].
pub struct SpanModel {
    pub text: Seq<char>,
    pub quoted: bool,
    pub start: usize,
    pub end: usize,
}

impl DeepView for Span {
    type V = SpanModel;

    open spec fn deep_view(&self) -> SpanModel {
        SpanModel { text: self.text@, quoted: self.quoted, start: self.start, end: self.end }
    }
}

impl View for Span {
    type V = SpanModel;

    open spec fn view(&self) -> SpanModel {
        self.deep_view()
    }
}

/// Where the tokenizer stands after part of a line, when it keeps track of
/// places: besides what [`Scan`] holds, where the token being read began
/// and where the open quote stands.
pub struct Sweep {
    pub spans: Seq<SpanModel>,
    pub current: Seq<char>,
    pub current_start: usize,
    pub in_quote: bool,
    pub quote_start: usize,
}

impl Sweep {
    /// The complete spans, and the unquoted one being read, which ends
    /// before place `i`, if it has any character.
    pub open spec fn flushed(self, i: usize) -> Seq<SpanModel> {
        if self.current.len() > 0 {
            self.spans.push(
                SpanModel { text: self.current, quoted: false, start: self.current_start, end: i },
            )
        } else {
            self.spans
        }
    }

    /// The effect of the character `c` at place `i`.
    pub open spec fn feed(self, c: char, i: usize) -> Sweep {
        if c == '"' && !self.in_quote {
            Sweep {
                spans: self.flushed(i),
                current: Seq::empty(),
                in_quote: true,
                quote_start: i,
                ..self
            }
        } else if c == '"' {
            Sweep {
                spans: self.spans.push(
                    SpanModel {
                        text: self.current,
                        quoted: true,
                        start: self.quote_start,
                        end: (i + 1) as usize,
                    },
                ),
                current: Seq::empty(),
                in_quote: false,
                ..self
            }
        } else if is_whitespace(c) && !self.in_quote {
            Sweep { spans: self.flushed(i), current: Seq::empty(), ..self }
        } else {
            Sweep {
                current: self.current.push(c),
                current_start: if self.current.len() == 0 && !self.in_quote {
                    i
                } else {
                    self.current_start
                },
                ..self
            }
        }
    }

    /// The spans once the line has ended at place `n`.
    pub open spec fn finished(self, n: usize) -> Seq<SpanModel> {
        if self.current.len() > 0 {
            self.spans.push(
                SpanModel {
                    text: self.current,
                    quoted: self.in_quote,
                    start: if self.in_quote {
                        self.quote_start
                    } else {
                        self.current_start
                    },
                    end: n,
                },
            )
        } else {
            self.spans
        }
    }
}

/// Where the tokenizer stands after all of `s`.
pub open spec fn sweep(s: Seq<char>) -> Sweep
    decreases s.len(),
{
    if s.len() == 0 {
        Sweep {
            spans: Seq::empty(),
            current: Seq::empty(),
            current_start: 0,
            in_quote: false,
            quote_start: 0,
        }
    } else {
        sweep(s.drop_last()).feed(s.last(), (s.len() - 1) as usize)
    }
}

/// The tokens of a line, each with the part of the line it was read from.
pub open spec fn spec_spans(line: Seq<char>) -> Seq<SpanModel> {
    sweep(line).finished(line.len() as usize)
}

/// The spans follow one another within a line of `n` characters.
pub open spec fn in_sequence(spans: Seq<SpanModel>, n: int) -> bool {
    &&& forall|k: int| 0 <= k < spans.len() ==> (#[trigger] spans[k]).start <= spans[k].end <= n
    &&& forall|j: int, k: int|
        0 <= j < k < spans.len() ==> (#[trigger] spans[j]).end <= (#[trigger] spans[k]).start
}

/// The tokens of a line of characters, with their places.
pub fn spans_of(v: &Vec<char>) -> (spans: Vec<Span>)
    ensures
        spans.deep_view() == spec_spans(v@),
        in_sequence(spans.deep_view(), v.len() as int),
{
    let mut spans: Vec<Span> = Vec::new();
    let mut current = String::new();
    let mut current_start: usize = 0;
    let mut in_quote = false;
    let mut quote_start: usize = 0;
    let mut i: usize = 0;
    assert(v@.take(0) =~= Seq::<char>::empty());
    assert(spans.deep_view() =~= Seq::<SpanModel>::empty());
    while i < v.len()
        invariant
            i <= v.len(),
            sweep(v@.take(i as int)) == (Sweep {
                spans: spans.deep_view(),
                current: current@,
                current_start,
                in_quote,
                quote_start,
            }),
            in_sequence(spans.deep_view(), i as int),
            current@.len() > 0 || in_quote ==> (if in_quote {
                quote_start
            } else {
                current_start
            }) < i,
            forall|k: int|
                0 <= k < spans.len() && (current@.len() > 0 || in_quote) ==> (
                #[trigger] spans.deep_view()[k]).end <= (if in_quote {
                    quote_start
                } else {
                    current_start
                }),
        decreases v.len() - i,
    {
        let c = v[i];
        let ghost before = sweep(v@.take(i as int));
        let ghost old_spans = spans.deep_view();
        proof {
            assert(v@.take(i + 1).drop_last() =~= v@.take(i as int));
            assert(v@.take(i + 1).last() == c);
        }
        if c == '"' && !in_quote {
            if !current.as_str().is_empty() {
                spans.push(Span { text: current, quoted: false, start: current_start, end: i });
                current = String::new();
            }
            in_quote = true;
            quote_start = i;
        } else if c == '"' {
            spans.push(Span { text: current, quoted: true, start: quote_start, end: i + 1 });
            current = String::new();
            in_quote = false;
        } else if is_space(c) && !in_quote {
            if !current.as_str().is_empty() {
                spans.push(Span { text: current, quoted: false, start: current_start, end: i });
                current = String::new();
            }
        } else {
            if current.as_str().is_empty() && !in_quote {
                current_start = i;
            }
            push_char(&mut current, c);
        }
        assert(spans.deep_view() =~= before.feed(c, i).spans);
        assert(current@ =~= before.feed(c, i).current);
        proof {
            let now = spans.deep_view();
            assert forall|k: int| 0 <= k < now.len() implies (#[trigger] now[k]).start <= now[k].end
                <= i + 1 by {
                if k < old_spans.len() {
                    assert(now[k] == old_spans[k]);
                }
            }
            assert forall|j: int, k: int| 0 <= j < k < now.len() implies (#[trigger] now[j]).end <= (
            #[trigger] now[k]).start by {
                if k < old_spans.len() {
                    assert(now[j] == old_spans[j] && now[k] == old_spans[k]);
                } else {
                    assert(now[j] == old_spans[j]);
                }
            }
            assert forall|k: int|
                0 <= k < now.len() && (current@.len() > 0 || in_quote) implies (#[trigger] now[k]).end
                <= (if in_quote {
                    quote_start
                } else {
                    current_start
                }) by {
                if k < old_spans.len() {
                    assert(now[k] == old_spans[k]);
                }
            }
        }
        i = i + 1;
    }
    assert(v@.take(v.len() as int) =~= v@);
    let ghost last = sweep(v@);
    let ghost old_spans = spans.deep_view();
    if !current.as_str().is_empty() {
        let start = if in_quote {
            quote_start
        } else {
            current_start
        };
        spans.push(Span { text: current, quoted: in_quote, start, end: v.len() });
    }
    assert(spans.deep_view() =~= last.finished(v.len()));
    proof {
        let now = spans.deep_view();
        assert forall|k: int| 0 <= k < now.len() implies (#[trigger] now[k]).start <= now[k].end
            <= v.len() by {
            if k < old_spans.len() {
                assert(now[k] == old_spans[k]);
            }
        }
        assert forall|j: int, k: int| 0 <= j < k < now.len() implies (#[trigger] now[j]).end <= (
        #[trigger] now[k]).start by {
            if k < old_spans.len() {
                assert(now[j] == old_spans[j] && now[k] == old_spans[k]);
            } else {
                assert(now[j] == old_spans[j]);
            }
        }
    }
    spans
}

/// A span as a token with the byte offset at which it starts in the line.
pub open spec fn positioned(line: Seq<char>, span: SpanModel) -> TokenWithPositionModel {
    TokenWithPositionModel {
        text: span.text,
        quoted: span.quoted,
        position: byte_len(line.take(span.start as int)) as usize,
    }
}

/// The tokens of a line, each with the byte offset at which it starts: for
/// a quoted token that of its opening quote.
pub open spec fn spec_tokenize_with_positions(line: Seq<char>) -> Seq<TokenWithPositionModel> {
    spec_spans(line).map_values(|span: SpanModel| positioned(line, span))
}

/// The byte offset of each place of a line, the end included.
pub fn byte_offsets(line: &str, v: &Vec<char>) -> (offsets: Vec<usize>)
    requires
        v@ == line@,
    ensures
        offsets.len() == v.len() + 1,
        forall|k: int| 0 <= k <= v.len() ==> offsets[k] == byte_len(line@.take(k)),
{
    let total = line.as_bytes().len();
    let mut offsets: Vec<usize> = Vec::new();
    let mut offset: usize = 0;
    let mut i: usize = 0;
    proof {
        assert(line@.take(0) =~= Seq::<char>::empty());
        assert(vstd::utf8::encode_utf8(Seq::<char>::empty()).len() == 0);
    }
    while i < v.len()
        invariant
            i <= v.len(),
            v@ == line@,
            total == byte_len(line@),
            offset == byte_len(line@.take(i as int)),
            offsets.len() == i,
            forall|k: int| 0 <= k < i ==> offsets[k] == byte_len(line@.take(k)),
        decreases v.len() - i,
    {
        proof {
            assert(line@.take(i + 1) =~= line@.take(i as int).push(v@[i as int]));
            lemma_byte_len_push(line@.take(i as int), v@[i as int]);
            lemma_byte_len_prefix(line@, i + 1);
        }
        offsets.push(offset);
        offset = offset + width_of(v[i]);
        i = i + 1;
    }
    offsets.push(offset);
    offsets
}

/// Tokenize a line of input with quote awareness, tracking byte positions.
///
/// Returns tokens annotated with their starting byte offset in the original input.
/// For quoted tokens, the position points to the opening `"`.
pub fn tokenize_with_positions(line: &str) -> (tokens: Vec<TokenWithPosition>)
    ensures
        tokens.deep_view() == spec_tokenize_with_positions(line@),
{
    let v = chars_of(line);
    let offsets = byte_offsets(line, &v);
    let spans = spans_of(&v);
    let mut tokens: Vec<TokenWithPosition> = Vec::new();
    let mut k: usize = 0;
    while k < spans.len()
        invariant
            k <= spans.len(),
            v@ == line@,
            spans.deep_view() == spec_spans(line@),
            in_sequence(spans.deep_view(), v.len() as int),
            offsets.len() == v.len() + 1,
            forall|j: int| 0 <= j <= v.len() ==> offsets[j] == byte_len(line@.take(j)),
            tokens.len() == k,
            forall|j: int|
                0 <= j < k ==> (#[trigger] tokens[j])@ == positioned(line@, spans.deep_view()[j]),
        decreases spans.len() - k,
    {
        let span = &spans[k];
        assert(spans.deep_view()[k as int] == span@);
        assert(span.start <= v.len());
        tokens.push(
            TokenWithPosition {
                text: span.text.clone(),
                quoted: span.quoted,
                position: offsets[span.start],
            },
        );
        k = k + 1;
    }
    assert(tokens.deep_view() =~= spec_tokenize_with_positions(line@));
    tokens
}

/// A span without its place.
pub open spec fn token_of(span: SpanModel) -> TokenModel {
    TokenModel { text: span.text, quoted: span.quoted }
}

proof fn lemma_sweep_is_scan(s: Seq<char>)
    requires
        s.len() <= usize::MAX,
    ensures
        sweep(s).spans.map_values(|span: SpanModel| token_of(span)) == scan(s).tokens,
        sweep(s).current == scan(s).current,
        sweep(s).in_quote == scan(s).in_quote,
    decreases s.len(),
{
    let strip = |span: SpanModel| token_of(span);
    if s.len() == 0 {
        assert(sweep(s).spans.map_values(strip) =~= scan(s).tokens);
    } else {
        lemma_sweep_is_scan(s.drop_last());
        let w = sweep(s.drop_last());
        let c = s.last();
        let i = (s.len() - 1) as usize;
        let pushed = |span: SpanModel| w.spans.push(span).map_values(strip);
        assert forall|span: SpanModel| #[trigger]
            pushed(span) == w.spans.map_values(strip).push(token_of(span)) by {
            assert(w.spans.push(span).map_values(strip) =~= w.spans.map_values(strip).push(
                token_of(span),
            ));
        }
        let flushed = SpanModel { text: w.current, quoted: false, start: w.current_start, end: i };
        let closed = SpanModel {
            text: w.current,
            quoted: true,
            start: w.quote_start,
            end: (i + 1) as usize,
        };
        assert(pushed(flushed) == w.spans.map_values(strip).push(token_of(flushed)));
        assert(pushed(closed) == w.spans.map_values(strip).push(token_of(closed)));
        assert(w.feed(c, i).spans.map_values(strip) =~= scan(s.drop_last()).feed(c).tokens);
    }
}

/// The tokens with their places are the tokens: leaving the places out of
/// what [`tokenize_with_positions`] gives is what [`tokenize`] gives.
pub proof fn positions_are_added_to_the_same_tokens(line: Seq<char>)
    requires
        line.len() <= usize::MAX,
    ensures
        spec_tokenize(line) == spec_tokenize_with_positions(line).map_values(
            |t: TokenWithPositionModel| TokenModel { text: t.text, quoted: t.quoted },
        ),
        spec_tokenize(line) == spec_spans(line).map_values(|span: SpanModel| token_of(span)),
{
    lemma_sweep_is_scan(line);
    let w = sweep(line);
    let strip = |span: SpanModel| token_of(span);
    let last = SpanModel {
        text: w.current,
        quoted: w.in_quote,
        start: if w.in_quote {
            w.quote_start
        } else {
            w.current_start
        },
        end: line.len() as usize,
    };
    assert(w.spans.push(last).map_values(strip) =~= w.spans.map_values(strip).push(
        token_of(last),
    ));
    assert(spec_spans(line).map_values(strip) =~= spec_tokenize(line));
    assert(spec_tokenize_with_positions(line).map_values(
        |t: TokenWithPositionModel| TokenModel { text: t.text, quoted: t.quoted },
    ) =~= spec_spans(line).map_values(strip));
}

} // verus!

//! Lexer for the translation-message language. A message is cut into
//! balanced-brace tokens (classified as variable, plural or select by their
//! content), html-tag tokens and plain-text runs; a span the input ends
//! inside is kept, truncated at end of input. [`lex`] is the specification
//! of the whole token stream and every exec function is proved against it.
use crate::text::{chars_of, contains_chars, contains_seq, string_from_chars};
use vstd::prelude::*;

verus! {

#[derive(Debug, PartialEq, Clone)]
pub enum Token {
    Variable(String),
    Plural(String),
    Select(String),
    HtmlTag(String),
    Text(String),
}

/// Mathematical model of a token: the same tags over character sequences.
pub enum TokenModel {
    Variable(Seq<char>),
    Plural(Seq<char>),
    Select(Seq<char>),
    HtmlTag(Seq<char>),
    Text(Seq<char>),
}

impl View for Token {
    type V = TokenModel;

    open spec fn view(&self) -> TokenModel {
        match self {
            Token::Variable(s) => TokenModel::Variable(s@),
            Token::Plural(s) => TokenModel::Plural(s@),
            Token::Select(s) => TokenModel::Select(s@),
            Token::HtmlTag(s) => TokenModel::HtmlTag(s@),
            Token::Text(s) => TokenModel::Text(s@),
        }
    }
}

/// The raw text a token carries.
pub open spec fn tok_raw(t: TokenModel) -> Seq<char> {
    match t {
        TokenModel::Variable(s) => s,
        TokenModel::Plural(s) => s,
        TokenModel::Select(s) => s,
        TokenModel::HtmlTag(s) => s,
        TokenModel::Text(s) => s,
    }
}

/// The characters a brace token consumes from `s`, entered at nesting
/// `depth`: everything up to and including the brace that closes the token,
/// or all of `s` when the input ends first.
pub open spec fn brace_take(s: Seq<char>, depth: int) -> Seq<char>
    decreases s.len(),
{
    if s.len() == 0 {
        Seq::empty()
    } else if s[0] == '{' {
        seq![s[0]] + brace_take(s.drop_first(), depth + 1)
    } else if s[0] == '}' {
        if depth == 1 {
            seq![s[0]]
        } else {
            seq![s[0]] + brace_take(s.drop_first(), depth - 1)
        }
    } else {
        seq![s[0]] + brace_take(s.drop_first(), depth)
    }
}

pub proof fn lemma_brace_take_len(s: Seq<char>, depth: int)
    ensures
        brace_take(s, depth).len() <= s.len(),
    decreases s.len(),
{
    if s.len() > 0 {
        lemma_brace_take_len(s.drop_first(), depth + 1);
        lemma_brace_take_len(s.drop_first(), depth - 1);
        lemma_brace_take_len(s.drop_first(), depth);
    }
}

/// Index of the first occurrence of `c` in `s` at or after `i`, or `-1`.
pub open spec fn find_from(s: Seq<char>, i: int, c: char) -> int
    decreases s.len() - i,
{
    if i < 0 || i >= s.len() {
        -1
    } else if s[i] == c {
        i
    } else {
        find_from(s, i + 1, c)
    }
}

pub proof fn lemma_find_from_bounds(s: Seq<char>, i: int, c: char)
    requires
        i >= 0,
    ensures
        find_from(s, i, c) == -1 || (i <= find_from(s, i, c) < s.len() && s[find_from(s, i, c)]
            == c),
    decreases s.len() - i,
{
    if i < s.len() && s[i] != c {
        lemma_find_from_bounds(s, i + 1, c);
    }
}

/// Index right after the text run starting at `i`: the first `{` or `<`
/// at or after `i`, or the end of `s`.
pub open spec fn text_end(s: Seq<char>, i: int) -> int
    decreases s.len() - i,
{
    if i < 0 || i >= s.len() {
        s.len() as int
    } else if s[i] == '{' || s[i] == '<' {
        i
    } else {
        text_end(s, i + 1)
    }
}

pub proof fn lemma_text_end_bounds(s: Seq<char>, i: int)
    requires
        0 <= i <= s.len(),
    ensures
        i <= text_end(s, i) <= s.len(),
    decreases s.len() - i,
{
    if i < s.len() && !(s[i] == '{' || s[i] == '<') {
        lemma_text_end_bounds(s, i + 1);
    }
}

/// A balanced-brace span is a plural token if its text contains `plural`,
/// a select token if it contains `select`, and a variable otherwise.
pub open spec fn classify_brace(content: Seq<char>) -> TokenModel {
    if contains_seq(content, "plural"@) {
        TokenModel::Plural(content)
    } else if contains_seq(content, "select"@) {
        TokenModel::Select(content)
    } else {
        TokenModel::Variable(content)
    }
}

/// The token stream of a message. A `{...` or `<...` span that the input
/// ends inside is kept as a token truncated at end of input.
pub open spec fn lex(s: Seq<char>) -> Seq<TokenModel>
    decreases s.len(),
{
    if s.len() == 0 {
        Seq::empty()
    } else if s[0] == '{' {
        let content = seq![s[0]] + brace_take(s.drop_first(), 1);
        proof {
            lemma_brace_take_len(s.drop_first(), 1);
        }
        seq![classify_brace(content)] + lex(s.skip(content.len() as int))
    } else if s[0] == '<' {
        let j = find_from(s, 1, '>');
        proof {
            lemma_find_from_bounds(s, 1, '>');
        }
        if j >= 1 {
            seq![TokenModel::HtmlTag(s.subrange(0, j + 1))] + lex(s.skip(j + 1))
        } else {
            seq![TokenModel::HtmlTag(s)] + lex(s.skip(s.len() as int))
        }
    } else {
        let j = text_end(s, 0);
        proof {
            lemma_text_end_bounds(s, 1);
            assert(text_end(s, 0) == text_end(s, 1));
        }
        seq![TokenModel::Text(s.subrange(0, j))] + lex(s.skip(j))
    }
}

/// Total raw length of a token stream.
pub open spec fn ttl(ts: Seq<TokenModel>) -> nat
    decreases ts.len(),
{
    if ts.len() == 0 {
        0
    } else {
        tok_raw(ts[0]).len() + ttl(ts.drop_first())
    }
}

pub proof fn lemma_ttl_cons(t: TokenModel, ts: Seq<TokenModel>)
    ensures
        ttl(seq![t] + ts) == tok_raw(t).len() + ttl(ts),
{
    assert((seq![t] + ts).drop_first() =~= ts);
    assert((seq![t] + ts)[0] == t);
}

/// A token stream never carries more characters than the input it came from.
pub proof fn lemma_lex_ttl(s: Seq<char>)
    ensures
        ttl(lex(s)) <= s.len(),
    decreases s.len(),
{
    if s.len() == 0 {
    } else if s[0] == '{' {
        let content = seq![s[0]] + brace_take(s.drop_first(), 1);
        lemma_brace_take_len(s.drop_first(), 1);
        lemma_lex_ttl(s.skip(content.len() as int));
        lemma_ttl_cons(classify_brace(content), lex(s.skip(content.len() as int)));
        assert(tok_raw(classify_brace(content)) == content);
    } else if s[0] == '<' {
        let j = find_from(s, 1, '>');
        lemma_find_from_bounds(s, 1, '>');
        if j >= 1 {
            lemma_lex_ttl(s.skip(j + 1));
            lemma_ttl_cons(TokenModel::HtmlTag(s.subrange(0, j + 1)), lex(s.skip(j + 1)));
        } else {
            lemma_lex_ttl(s.skip(s.len() as int));
            lemma_ttl_cons(TokenModel::HtmlTag(s), lex(s.skip(s.len() as int)));
        }
    } else {
        let j = text_end(s, 0);
        lemma_text_end_bounds(s, 1);
        assert(text_end(s, 0) == text_end(s, 1));
        lemma_lex_ttl(s.skip(j));
        lemma_ttl_cons(TokenModel::Text(s.subrange(0, j)), lex(s.skip(j)));
    }
}

/// Each token's raw text is bounded by the total.
pub proof fn lemma_tok_in_ttl(ts: Seq<TokenModel>, i: int)
    requires
        0 <= i < ts.len(),
    ensures
        tok_raw(ts[i]).len() <= ttl(ts),
    decreases i,
{
    if i > 0 {
        lemma_tok_in_ttl(ts.drop_first(), i - 1);
    }
}

pub struct Lexer {
    input: Vec<char>,
    pos: usize,
}

impl Lexer {
    /// The characters not yet consumed.
    pub closed spec fn remaining(&self) -> Seq<char> {
        self.input@.skip(self.pos as int)
    }

    pub closed spec fn wf(&self) -> bool {
        self.pos <= self.input@.len()
    }

    pub fn new(input: &str) -> (l: Lexer)
        ensures
            l.wf(),
            l.remaining() == input@,
    {
        let l = Lexer { input: chars_of(input), pos: 0 };
        proof {
            assert(l.remaining() =~= input@);
        }
        l
    }

    /// Consume one character.
    pub fn advance(&mut self)
        requires
            old(self).wf(),
            old(self).remaining().len() > 0,
        ensures
            final(self).wf(),
            final(self).remaining() == old(self).remaining().drop_first(),
    {
        let n = self.input.len();
        proof {
            assert(self.pos < n);
        }
        self.pos = self.pos + 1;
        proof {
            assert(self.remaining() =~= old(self).remaining().drop_first());
        }
    }

    /// Produce the next token of the stream, advancing past it. `None`
    /// means the input is exhausted.
    pub fn next_token(&mut self) -> (t: Option<Token>)
        requires
            old(self).wf(),
        ensures
            final(self).wf(),
            match t {
                Some(tok) => lex(old(self).remaining()) == seq![tok@] + lex(
                    final(self).remaining(),
                ) && final(self).remaining().len() < old(self).remaining().len(),
                None => lex(old(self).remaining()) == Seq::<TokenModel>::empty()
                    && final(self).remaining().len() == 0,
            },
    {
        if self.pos >= self.input.len() {
            proof {
                assert(self.remaining().len() == 0);
            }
            None
        } else {
            let ghost s = old(self).remaining();
            proof {
                assert(s.len() > 0);
            }
            let c = self.input[self.pos];
            proof {
                assert(s[0] == c);
            }
            if c == '{' {
                let tok = self.lex_complex_token();
                proof {
                    lemma_brace_take_len(s.drop_first(), 1);
                    assert(lex(s) == seq![tok@] + lex(self.remaining()));
                }
                Some(tok)
            } else if c == '<' {
                let tok = self.lex_html_tag();
                proof {
                    lemma_find_from_bounds(s, 1, '>');
                    if find_from(s, 1, '>') == -1 {
                        assert(self.remaining() =~= Seq::<char>::empty());
                        assert(s.skip(s.len() as int) =~= Seq::<char>::empty());
                    }
                    assert(lex(s) == seq![tok@] + lex(self.remaining()));
                }
                Some(tok)
            } else {
                let tok = self.lex_text();
                proof {
                    lemma_text_end_bounds(s, 1);
                    assert(text_end(s, 0) == text_end(s, 1));
                    assert(lex(s) == seq![tok@] + lex(self.remaining()));
                }
                Some(tok)
            }
        }
    }

    /// Lex a balanced-brace span starting at the current `{`.
    pub fn lex_complex_token(&mut self) -> (t: Token)
        requires
            old(self).wf(),
            old(self).remaining().len() > 0,
            old(self).remaining()[0] == '{',
        ensures
            final(self).wf(),
            ({
                let s = old(self).remaining();
                let content = seq![s[0]] + brace_take(s.drop_first(), 1);
                t@ == classify_brace(content) && final(self).remaining() == s.skip(
                    content.len() as int,
                )
            }),
    {
        let ghost inp = self.input@;
        let ghost s = self.remaining();
        let ghost s0 = s.drop_first();
        let mut content: Vec<char> = Vec::new();
        let n = self.input.len();
        proof {
            assert(self.pos < n);
        }
        content.push(self.input[self.pos]);
        self.pos = self.pos + 1;
        let ghost p0 = self.pos as int;
        proof {
            assert(s0 =~= inp.skip(p0));
            assert(content@ =~= seq![s[0]] + s0.subrange(0, 0));
        }
        let mut depth: usize = 1;
        while depth > 0 && self.pos < self.input.len()
            invariant
                self.input@ == inp,
                1 <= p0 <= self.pos as int <= inp.len(),
                s.len() > 0 && s[0] == '{',
                s0 == inp.skip(p0),
                depth <= self.pos,
                content@ == seq![s[0]] + s0.subrange(0, self.pos - p0),
                brace_take(s0, 1) == s0.subrange(0, self.pos - p0) + (if depth > 0 {
                    brace_take(inp.skip(self.pos as int), depth as int)
                } else {
                    Seq::<char>::empty()
                }),
            decreases inp.len() - self.pos,
        {
            let ghost rem = inp.skip(self.pos as int);
            let ghost d = depth as int;
            let ghost i = self.pos - p0;
            let ch = self.input[self.pos];
            proof {
                assert(rem.len() > 0);
                assert(rem[0] == ch);
                assert(rem.drop_first() =~= inp.skip(self.pos + 1));
            }
            if ch == '{' {
                depth = depth + 1;
                content.push(ch);
            } else if ch == '}' {
                depth = depth - 1;
                content.push(ch);
            } else {
                content.push(ch);
            }
            self.pos = self.pos + 1;
            proof {
                assert(s0[i] == inp[p0 + i]);
                assert(s0[i] == ch);
                assert(s0.subrange(0, self.pos - p0) =~= s0.subrange(0, i) + seq![ch]);
                assert(content@ =~= seq![s[0]] + s0.subrange(0, self.pos - p0));
                if ch == '}' && d == 1 {
                    assert(brace_take(rem, d) == seq![ch]);
                    assert(s0.subrange(0, i) + brace_take(rem, d) =~= s0.subrange(
                        0,
                        self.pos - p0,
                    ) + Seq::<char>::empty());
                } else {
                    assert(brace_take(rem, d) == seq![ch] + brace_take(
                        inp.skip(self.pos as int),
                        depth as int,
                    ));
                    assert(s0.subrange(0, i) + (seq![ch] + brace_take(
                        inp.skip(self.pos as int),
                        depth as int,
                    )) =~= s0.subrange(0, self.pos - p0) + brace_take(
                        inp.skip(self.pos as int),
                        depth as int,
                    ));
                }
            }
        }
        proof {
            if depth > 0 {
                assert(inp.skip(self.pos as int) =~= Seq::<char>::empty());
            }
            assert(s0.subrange(0, self.pos - p0) + Seq::<char>::empty() =~= s0.subrange(
                0,
                self.pos - p0,
            ));
            assert(brace_take(s0, 1) == s0.subrange(0, self.pos - p0));
            assert(content@ =~= seq![s[0]] + brace_take(s0, 1));
            assert(self.remaining() =~= s.skip(content@.len() as int));
        }
        let is_plural = contains_chars(&content, "plural");
        let is_select = contains_chars(&content, "select");
        let raw = string_from_chars(&content);
        if is_plural {
            Token::Plural(raw)
        } else if is_select {
            Token::Select(raw)
        } else {
            Token::Variable(raw)
        }
    }

    /// Lex an html-tag span starting at the current `<`: everything up to
    /// and including the next `>`, or, when the input ends first, the span
    /// truncated at end of input.
    pub fn lex_html_tag(&mut self) -> (t: Token)
        requires
            old(self).wf(),
            old(self).remaining().len() > 0,
            old(self).remaining()[0] == '<',
        ensures
            final(self).wf(),
            ({
                let s = old(self).remaining();
                let j = find_from(s, 1, '>');
                if j >= 1 {
                    t@ == TokenModel::HtmlTag(s.subrange(0, j + 1)) && final(self).remaining()
                        == s.skip(j + 1)
                } else {
                    t@ == TokenModel::HtmlTag(s) && final(self).remaining().len() == 0
                }
            }),
    {
        let ghost inp = self.input@;
        let ghost s = self.remaining();
        let mut content: Vec<char> = Vec::new();
        let n = self.input.len();
        proof {
            assert(self.pos < n);
        }
        content.push(self.input[self.pos]);
        self.pos = self.pos + 1;
        let ghost p0 = self.pos as int;
        proof {
            assert(s == inp.skip(p0 - 1));
            assert(s[0] == inp[p0 - 1]);
            assert(content@ =~= s.subrange(0, 1));
        }
        while self.pos < self.input.len() && self.input[self.pos] != '>'
            invariant
                self.input@ == inp,
                p0 <= self.pos as int <= inp.len(),
                1 <= p0,
                s == inp.skip(p0 - 1),
                s.len() == inp.len() - p0 + 1,
                content@ == s.subrange(0, self.pos - p0 + 1),
                find_from(s, 1, '>') == find_from(s, self.pos - p0 + 1, '>'),
            decreases inp.len() - self.pos,
        {
            let ghost i = self.pos - p0 + 1;
            let ch = self.input[self.pos];
            proof {
                assert(s[i] == inp[p0 - 1 + i]);
                assert(s[i] == ch);
                assert(find_from(s, i, '>') == find_from(s, i + 1, '>'));
            }
            content.push(ch);
            self.pos = self.pos + 1;
            proof {
                assert(content@ =~= s.subrange(0, self.pos - p0 + 1));
            }
        }
        let ghost j = find_from(s, 1, '>');
        if self.pos < self.input.len() {
            let ghost i = self.pos - p0 + 1;
            proof {
                assert(s[i] == inp[p0 - 1 + i]);
                assert(s[i] == '>');
                assert(find_from(s, i, '>') == i);
                assert(j == i);
            }
            content.push(self.input[self.pos]);
            self.pos = self.pos + 1;
            proof {
                assert(content@ =~= s.subrange(0, j + 1));
                assert(self.remaining() =~= s.skip(j + 1));
            }
            let raw = string_from_chars(&content);
            Token::HtmlTag(raw)
        } else {
            proof {
                assert(self.pos - p0 + 1 >= s.len());
                assert(j == -1);
                assert(self.remaining().len() == 0);
                assert(content@ =~= s);
            }
            let raw = string_from_chars(&content);
            Token::HtmlTag(raw)
        }
    }

    /// Lex a run of plain text up to the next `{` or `<`.
    pub fn lex_text(&mut self) -> (t: Token)
        requires
            old(self).wf(),
            old(self).remaining().len() > 0,
            old(self).remaining()[0] != '{',
            old(self).remaining()[0] != '<',
        ensures
            final(self).wf(),
            ({
                let s = old(self).remaining();
                let j = text_end(s, 0);
                t@ == TokenModel::Text(s.subrange(0, j)) && final(self).remaining() == s.skip(j)
            }),
    {
        let ghost inp = self.input@;
        let ghost s = self.remaining();
        let ghost p0 = self.pos as int;
        let mut content: Vec<char> = Vec::new();
        proof {
            assert(content@ =~= s.subrange(0, 0));
        }
        while self.pos < self.input.len() && self.input[self.pos] != '{' && self.input[self.pos]
            != '<'
            invariant
                self.input@ == inp,
                0 <= p0 <= self.pos as int <= inp.len(),
                s == inp.skip(p0),
                s.len() == inp.len() - p0,
                content@ == s.subrange(0, self.pos - p0),
                text_end(s, 0) == text_end(s, self.pos - p0),
            decreases inp.len() - self.pos,
        {
            let ghost i = self.pos - p0;
            let ch = self.input[self.pos];
            proof {
                assert(s[i] == inp[p0 + i]);
                assert(s[i] == ch);
                assert(text_end(s, i) == text_end(s, i + 1));
            }
            content.push(ch);
            self.pos = self.pos + 1;
            proof {
                assert(content@ =~= s.subrange(0, self.pos - p0));
            }
        }
        let ghost j = text_end(s, 0);
        proof {
            let i = self.pos - p0;
            if self.pos < self.input.len() {
                assert(s[i] == inp[p0 + i]);
                assert(s[i] == '{' || s[i] == '<');
                assert(text_end(s, i) == i);
            } else {
                assert(i == s.len());
                assert(text_end(s, i) == s.len());
            }
            assert(j == i);
            assert(content@ =~= s.subrange(0, j));
            assert(self.remaining() =~= s.skip(j));
        }
        let raw = string_from_chars(&content);
        Token::Text(raw)
    }
}

} // verus!

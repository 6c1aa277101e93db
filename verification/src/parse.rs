//! Recursive-descent parser for translation messages. [`sp_parse_message`]
//! is the specification of the whole pipeline (lexing plus parsing); the
//! executable `Parser` is proved to return exactly that value. The parser
//! never panics: a malformed placeholder (missing braces or a plural/select
//! header without its two commas) is a string error.
use crate::ast::{sp_into_vec, view_nodes, view_opts, Ast, AstNode};
use crate::lex::{
    find_from, lemma_find_from_bounds, lemma_lex_ttl, lemma_tok_in_ttl, lex, tok_raw, ttl, Lexer,
    Token, TokenModel,
};
use crate::text::{chars_of, string_from_chars, trim, trim_chars};
use vstd::prelude::*;

verus! {

/// The one error text the parser reports.
pub open spec fn parse_error_text() -> Seq<char> {
    "malformed message structure"@
}

fn parse_error_string() -> (s: String)
    ensures
        s@ == parse_error_text(),
{
    String::from_str("malformed message structure")
}

/// Views of a token vector.
pub open spec fn toks_of(v: Seq<Token>) -> Seq<TokenModel> {
    v.map_values(|t: Token| t@)
}

/// Split the interior of a `{...}` span at its first two commas: the
/// trimmed head is the variable, everything after the second comma is the
/// options body. Fails when the span is too short or a comma is missing.
pub open spec fn sp_header(raw: Seq<char>) -> Result<(Seq<char>, Seq<char>), ()> {
    if raw.len() < 2 {
        Err(())
    } else {
        let interior = raw.subrange(1, raw.len() - 1);
        let c1 = find_from(interior, 0, ',');
        if c1 < 0 {
            Err(())
        } else {
            let c2 = find_from(interior, c1 + 1, ',');
            if c2 < 0 {
                Err(())
            } else {
                Ok(
                    (
                        trim(interior.subrange(0, c1)),
                        interior.subrange(c2 + 1, interior.len() as int),
                    ),
                )
            }
        }
    }
}

pub proof fn lemma_header_body_len(raw: Seq<char>)
    requires
        sp_header(raw) is Ok,
    ensures
        sp_header(raw)->Ok_0.1.len() + 4 <= raw.len(),
{
    let interior = raw.subrange(1, raw.len() - 1);
    lemma_find_from_bounds(interior, 0, ',');
    let c1 = find_from(interior, 0, ',');
    lemma_find_from_bounds(interior, c1 + 1, ',');
}

/// Insert or replace a key in an option list, keeping first-seen order.
pub open spec fn upsert(
    acc: Seq<(Seq<char>, Seq<Ast>)>,
    k: Seq<char>,
    v: Seq<Ast>,
) -> Seq<(Seq<char>, Seq<Ast>)>
    decreases acc.len(),
{
    if acc.len() == 0 {
        seq![(k, v)]
    } else if acc[0].0 == k {
        seq![(k, v)] + acc.drop_first()
    } else {
        seq![acc[0]] + upsert(acc.drop_first(), k, v)
    }
}

/// Parse a message: its token stream wrapped in a root node.
pub open spec fn sp_parse(toks: Seq<TokenModel>) -> Result<Ast, ()>
    decreases ttl(toks), 3int, 0int,
{
    match sp_parse_nodes(toks, 0) {
        Ok(p) => Ok(Ast::Root(p.0)),
        Err(e) => Err(e),
    }
}

/// Parse a full message string.
pub open spec fn sp_parse_message(s: Seq<char>) -> Result<Ast, ()> {
    sp_parse(lex(s))
}

/// Parse nodes from `pos` until the tokens end or a closing tag is
/// consumed; returns the nodes and the position after them.
pub open spec fn sp_parse_nodes(toks: Seq<TokenModel>, pos: int) -> Result<(Seq<Ast>, int), ()>
    decreases
            ttl(toks),
            2int,
            (if pos <= toks.len() {
                2 * (toks.len() - pos) + 1
            } else {
                0
            }),
{
    if pos < 0 || pos >= toks.len() {
        Ok((Seq::empty(), pos))
    } else {
        match sp_parse_node(toks, pos) {
            Err(e) => Err(e),
            Ok((opt, np0)) => {
                let np = if np0 > pos {
                    np0
                } else {
                    pos + 1
                };
                match opt {
                    None => Ok((Seq::empty(), np)),
                    Some(n) => match sp_parse_nodes(toks, np) {
                        Err(e) => Err(e),
                        Ok((rest, end)) => Ok((seq![n] + rest, end)),
                    },
                }
            },
        }
    }
}

/// Parse the single token at `pos`. A closing html tag yields no node and
/// just advances; an opening tag consumes the following nodes as children.
pub open spec fn sp_parse_node(toks: Seq<TokenModel>, pos: int) -> Result<
    (Option<Ast>, int),
    (),
>
    decreases
            ttl(toks),
            2int,
            (if pos <= toks.len() {
                2 * (toks.len() - pos)
            } else {
                0
            }),
{
    if pos < 0 || pos >= toks.len() {
        Ok((None, pos + 1))
    } else {
        match toks[pos] {
            TokenModel::Text(t) => Ok((Some(Ast::Text(t)), pos + 1)),
            TokenModel::Variable(raw) => if raw.len() >= 2 {
                Ok((Some(Ast::Variable(raw.subrange(1, raw.len() - 1))), pos + 1))
            } else {
                Err(())
            },
            TokenModel::Plural(raw) => match sp_header(raw) {
                Err(e) => Err(e),
                Ok((variable, body)) => {
                    proof {
                        lemma_tok_in_ttl(toks, pos);
                        lemma_header_body_len(raw);
                    }
                    match sp_options(body) {
                        Err(e) => Err(e),
                        Ok(options) => Ok((Some(Ast::Plural { variable, options }), pos + 1)),
                    }
                },
            },
            TokenModel::Select(raw) => match sp_header(raw) {
                Err(e) => Err(e),
                Ok((variable, body)) => {
                    proof {
                        lemma_tok_in_ttl(toks, pos);
                        lemma_header_body_len(raw);
                    }
                    match sp_options(body) {
                        Err(e) => Err(e),
                        Ok(options) => Ok((Some(Ast::Select { variable, options }), pos + 1)),
                    }
                },
            },
            TokenModel::HtmlTag(raw) => if raw.len() >= 2 && raw[0] == '<' && raw[1] == '/' {
                Ok((None, pos + 1))
            } else if raw.len() >= 2 {
                match sp_parse_nodes(toks, pos + 1) {
                    Err(e) => Err(e),
                    Ok((children, end)) => Ok(
                        (Some(Ast::HtmlTag { name: raw.subrange(1, raw.len() - 1), children }), end),
                    ),
                }
            } else {
                Err(())
            },
        }
    }
}

/// Parse an options body into a label-to-fragment list.
pub open spec fn sp_options(body: Seq<char>) -> Result<Seq<(Seq<char>, Seq<Ast>)>, ()>
    decreases body.len() + 2, 1int, 0int,
{
    sp_options_at(body, 0, 0, Seq::empty(), Seq::empty(), Seq::empty())
}

/// One step of the options scan. Outside braces characters feed the pending
/// label; a brace opens a body at depth one; the brace closing depth one
/// parses the body as a message fragment and records the trimmed label.
pub open spec fn sp_options_at(
    body: Seq<char>,
    i: int,
    depth: int,
    key: Seq<char>,
    val: Seq<char>,
    acc: Seq<(Seq<char>, Seq<Ast>)>,
) -> Result<Seq<(Seq<char>, Seq<Ast>)>, ()>
    decreases
            val.len() + (if i <= body.len() {
                body.len() - i
            } else {
                0
            }) + 1,
            0int,
            (if i <= body.len() {
                body.len() - i
            } else {
                0
            }),
{
    if i < 0 || i >= body.len() {
        Ok(acc)
    } else {
        let ch = body[i];
        if ch == '{' {
            if depth + 1 > 1 {
                sp_options_at(body, i + 1, depth + 1, key, val.push(ch), acc)
            } else {
                sp_options_at(body, i + 1, depth + 1, key, val, acc)
            }
        } else if ch == '}' {
            if depth - 1 == 0 {
                proof {
                    lemma_lex_ttl(val);
                }
                match sp_parse(lex(val)) {
                    Err(e) => Err(e),
                    Ok(sub) => sp_options_at(
                        body,
                        i + 1,
                        0,
                        Seq::empty(),
                        Seq::empty(),
                        upsert(acc, trim(key), sp_into_vec(sub)),
                    ),
                }
            } else {
                sp_options_at(body, i + 1, depth - 1, key, val.push(ch), acc)
            }
        } else {
            if depth == 0 {
                sp_options_at(body, i + 1, depth, key.push(ch), val, acc)
            } else {
                sp_options_at(body, i + 1, depth, key, val.push(ch), acc)
            }
        }
    }
}

pub struct Parser {
    tokens: Vec<Token>,
}

impl Parser {
    /// The token models this parser holds.
    pub closed spec fn toks(&self) -> Seq<TokenModel> {
        toks_of(self.tokens@)
    }

    /// Tokenize a message.
    pub fn new(input: &str) -> (p: Parser)
        ensures
            p.toks() == lex(input@),
    {
        let mut lexer = Lexer::new(input);
        let mut tokens: Vec<Token> = Vec::new();
        let mut done = false;
        while !done
            invariant
                lexer.wf(),
                lex(input@) == toks_of(tokens@) + lex(lexer.remaining()),
                done ==> lex(lexer.remaining()) == Seq::<TokenModel>::empty(),
            decreases lexer.remaining().len() + (if done {
                0int
            } else {
                1int
            }),
        {
            let ghost toks0 = tokens@;
            match lexer.next_token() {
                Some(t) => {
                    let ghost tv = t@;
                    tokens.push(t);
                    proof {
                        assert(toks_of(tokens@) =~= toks_of(toks0) + seq![tv]);
                        assert(toks_of(toks0) + (seq![tv] + lex(lexer.remaining())) =~= (toks_of(
                            toks0,
                        ) + seq![tv]) + lex(lexer.remaining()));
                    }
                },
                None => {
                    done = true;
                },
            }
        }
        let p = Parser { tokens };
        proof {
            assert(toks_of(p.tokens@) + Seq::<TokenModel>::empty() =~= toks_of(p.tokens@));
        }
        p
    }

    /// Parse the token stream into a root node, or report the error text.
    pub fn parse(self) -> (r: Result<AstNode, String>)
        ensures
            match sp_parse(self.toks()) {
                Ok(ast) => r is Ok && r->Ok_0@ == ast,
                Err(_) => r is Err && r->Err_0@ == parse_error_text(),
            },
        decreases ttl(self.toks()), 3int, 1int,
    {
        match self.parse_nodes(0) {
            Ok((root, _)) => Ok(root),
            Err(e) => Err(e),
        }
    }

    /// Parse nodes from `position` on, wrapped in a root node; also returns
    /// the position after the last node consumed.
    pub fn parse_nodes(&self, position: usize) -> (r: Result<(AstNode, usize), String>)
        ensures
            match sp_parse_nodes(self.toks(), position as int) {
                Ok(p) => r is Ok && r->Ok_0.0@ == Ast::Root(p.0) && r->Ok_0.1 == p.1,
                Err(_) => r is Err && r->Err_0@ == parse_error_text(),
            },
        decreases
                ttl(self.toks()),
                2int,
                (if position <= self.toks().len() {
                    4 * (self.toks().len() - position) + 3
                } else {
                    0int
                }),
    {
        if position >= self.tokens.len() {
            return Ok((AstNode::Root(Vec::new()), position));
        }
        match self.parse_node(position) {
            Err(e) => Err(e),
            Ok((opt, np0)) => {
                let np = if np0 > position {
                    np0
                } else {
                    position + 1
                };
                match opt {
                    None => Ok((AstNode::Root(Vec::new()), np)),
                    Some(n) => {
                        let ghost nv = n@;
                        match self.parse_nodes(np) {
                            Err(e) => Err(e),
                            Ok((rest_root, end)) => match rest_root {
                                AstNode::Root(mut rest) => {
                                    let ghost rv = rest@;
                                    rest.insert(0, n);
                                    proof {
                                        assert(rest@ =~= seq![n] + rv);
                                        assert(view_nodes(rest@) =~= seq![nv] + view_nodes(rv))
                                            by {
                                            assert(rest@[0] == n);
                                            assert(rest@.drop_first() =~= rv);
                                        }
                                    }
                                    Ok((AstNode::Root(rest), end))
                                },
                                other => {
                                    proof {
                                        assert(false);
                                    }
                                    Ok((other, end))
                                },
                            },
                        }
                    },
                }
            },
        }
    }

    /// Parse the token at `position`.
    pub fn parse_node(&self, position: usize) -> (r: Result<(Option<AstNode>, usize), String>)
        requires
            position < self.toks().len(),
        ensures
            match sp_parse_node(self.toks(), position as int) {
                Ok(p) => r is Ok && r->Ok_0.1 == p.1 && (match p.0 {
                    Some(ast) => r->Ok_0.0 is Some && r->Ok_0.0->0@ == ast,
                    None => r->Ok_0.0 is None,
                }),
                Err(_) => r is Err && r->Err_0@ == parse_error_text(),
            },
        decreases ttl(self.toks()), 2int, 4 * (self.toks().len() - position) + 2,
    {
        let n = self.tokens.len();
        proof {
            assert(position < n);
            assert(self.toks()[position as int] == self.tokens@[position as int]@);
        }
        match &self.tokens[position] {
            Token::Text(text) => Ok((Some(AstNode::Text(text.clone())), position + 1)),
            Token::Variable(var) => {
                let raw = chars_of(var.as_str());
                if raw.len() >= 2 {
                    let mut name: Vec<char> = Vec::new();
                    let mut k: usize = 1;
                    while k < raw.len() - 1
                        invariant
                            1 <= k <= raw@.len() - 1,
                            raw@.len() >= 2,
                            name@ == raw@.subrange(1, k as int),
                        decreases raw@.len() - 1 - k,
                    {
                        name.push(raw[k]);
                        k = k + 1;
                        proof {
                            assert(name@ =~= raw@.subrange(1, k as int));
                        }
                    }
                    Ok((Some(AstNode::Variable(string_from_chars(&name))), position + 1))
                } else {
                    Err(parse_error_string())
                }
            },
            Token::Plural(p) => self.parse_plural(p.as_str(), position),
            Token::Select(p) => self.parse_select(p.as_str(), position),
            Token::HtmlTag(tag) => self.parse_html_tag(tag.as_str(), position),
        }
    }

    /// Parse a plural placeholder token.
    pub fn parse_plural(&self, plural: &str, position: usize) -> (r: Result<
        (Option<AstNode>, usize),
        String,
    >)
        requires
            position < self.toks().len(),
            self.toks()[position as int] == TokenModel::Plural(plural@),
        ensures
            match sp_parse_node(self.toks(), position as int) {
                Ok(p) => r is Ok && r->Ok_0.1 == p.1 && (match p.0 {
                    Some(ast) => r->Ok_0.0 is Some && r->Ok_0.0->0@ == ast,
                    None => r->Ok_0.0 is None,
                }),
                Err(_) => r is Err && r->Err_0@ == parse_error_text(),
            },
        decreases ttl(self.toks()), 2int, 4 * (self.toks().len() - position) + 1,
    {
        let n = self.tokens.len();
        proof {
            assert(position < n);
        }
        match self.parse_header(plural, position) {
            Err(e) => Err(e),
            Ok((variable, options)) => Ok(
                (Some(AstNode::Plural { variable, options }), position + 1),
            ),
        }
    }

    /// Parse a select placeholder token.
    pub fn parse_select(&self, select: &str, position: usize) -> (r: Result<
        (Option<AstNode>, usize),
        String,
    >)
        requires
            position < self.toks().len(),
            self.toks()[position as int] == TokenModel::Select(select@),
        ensures
            match sp_parse_node(self.toks(), position as int) {
                Ok(p) => r is Ok && r->Ok_0.1 == p.1 && (match p.0 {
                    Some(ast) => r->Ok_0.0 is Some && r->Ok_0.0->0@ == ast,
                    None => r->Ok_0.0 is None,
                }),
                Err(_) => r is Err && r->Err_0@ == parse_error_text(),
            },
        decreases ttl(self.toks()), 2int, 4 * (self.toks().len() - position) + 1,
    {
        let n = self.tokens.len();
        proof {
            assert(position < n);
        }
        match self.parse_header(select, position) {
            Err(e) => Err(e),
            Ok((variable, options)) => Ok(
                (Some(AstNode::Select { variable, options }), position + 1),
            ),
        }
    }

    /// Parse an html-tag token: a closing tag ends the enclosing level, an
    /// opening tag takes the following nodes as its children.
    pub fn parse_html_tag(&self, tag: &str, position: usize) -> (r: Result<
        (Option<AstNode>, usize),
        String,
    >)
        requires
            position < self.toks().len(),
            self.toks()[position as int] == TokenModel::HtmlTag(tag@),
        ensures
            match sp_parse_node(self.toks(), position as int) {
                Ok(p) => r is Ok && r->Ok_0.1 == p.1 && (match p.0 {
                    Some(ast) => r->Ok_0.0 is Some && r->Ok_0.0->0@ == ast,
                    None => r->Ok_0.0 is None,
                }),
                Err(_) => r is Err && r->Err_0@ == parse_error_text(),
            },
        decreases ttl(self.toks()), 2int, 4 * (self.toks().len() - position) + 1,
    {
        let n = self.tokens.len();
        proof {
            assert(position < n);
        }
        let raw = chars_of(tag);
        if raw.len() >= 2 && raw[0] == '<' && raw[1] == '/' {
            return Ok((None, position + 1));
        }
        if raw.len() < 2 {
            return Err(parse_error_string());
        }
        let mut name: Vec<char> = Vec::new();
        let mut k: usize = 1;
        while k < raw.len() - 1
            invariant
                1 <= k <= raw@.len() - 1,
                raw@.len() >= 2,
                name@ == raw@.subrange(1, k as int),
            decreases raw@.len() - 1 - k,
        {
            name.push(raw[k]);
            k = k + 1;
            proof {
                assert(name@ =~= raw@.subrange(1, k as int));
            }
        }
        let name_str = string_from_chars(&name);
        match self.parse_nodes(position + 1) {
            Err(e) => Err(e),
            Ok((root, end)) => match root {
                AstNode::Root(children) => Ok(
                    (Some(AstNode::HtmlTag { name: name_str, children }), end),
                ),
                other => {
                    proof {
                        assert(false);
                    }
                    Ok((Some(other), end))
                },
            },
        }
    }

    /// Split a plural or select token and parse its options body.
    fn parse_header(&self, raw_str: &str, position: usize) -> (r: Result<
        (String, Vec<(String, Vec<AstNode>)>),
        String,
    >)
        requires
            position < self.toks().len(),
            tok_raw(self.toks()[position as int]) == raw_str@,
        ensures
            match sp_header(raw_str@) {
                Err(_) => r is Err && r->Err_0@ == parse_error_text(),
                Ok(h) => match sp_options(h.1) {
                    Err(_) => r is Err && r->Err_0@ == parse_error_text(),
                    Ok(opts) => r is Ok && r->Ok_0.0@ == h.0 && view_opts(r->Ok_0.1@) == opts,
                },
            },
        decreases ttl(self.toks()), 2int, 4 * (self.toks().len() - position),
    {
        let raw = chars_of(raw_str);
        if raw.len() < 2 {
            return Err(parse_error_string());
        }
        let mut interior: Vec<char> = Vec::new();
        let mut k: usize = 1;
        while k < raw.len() - 1
            invariant
                1 <= k <= raw@.len() - 1,
                raw@.len() >= 2,
                interior@ == raw@.subrange(1, k as int),
            decreases raw@.len() - 1 - k,
        {
            interior.push(raw[k]);
            k = k + 1;
            proof {
                assert(interior@ =~= raw@.subrange(1, k as int));
            }
        }
        proof {
            assert(interior@ =~= raw@.subrange(1, raw@.len() - 1));
        }
        let c1 = match find_char(&interior, 0, ',') {
            None => {
                return Err(parse_error_string());
            },
            Some(c1) => c1,
        };
        let c2 = match find_char(&interior, c1 + 1, ',') {
            None => {
                return Err(parse_error_string());
            },
            Some(c2) => c2,
        };
        let mut head: Vec<char> = Vec::new();
        let mut k2: usize = 0;
        while k2 < c1
            invariant
                0 <= k2 <= c1 < interior@.len(),
                head@ == interior@.subrange(0, k2 as int),
            decreases c1 - k2,
        {
            head.push(interior[k2]);
            k2 = k2 + 1;
            proof {
                assert(head@ =~= interior@.subrange(0, k2 as int));
            }
        }
        let variable = string_from_chars(&trim_chars(&head));
        let mut body: Vec<char> = Vec::new();
        let mut k3: usize = c2 + 1;
        while k3 < interior.len()
            invariant
                c2 + 1 <= k3 <= interior@.len(),
                body@ == interior@.subrange(c2 + 1, k3 as int),
            decreases interior@.len() - k3,
        {
            body.push(interior[k3]);
            k3 = k3 + 1;
            proof {
                assert(body@ =~= interior@.subrange(c2 + 1, k3 as int));
            }
        }
        proof {
            assert(body@ =~= interior@.subrange(c2 + 1, interior@.len() as int));
            lemma_tok_in_ttl(self.toks(), position as int);
            lemma_header_body_len(raw_str@);
        }
        let body_str = string_from_chars(&body);
        match self.parse_options(body_str.as_str()) {
            Err(e) => Err(e),
            Ok((options, _)) => Ok((variable, options)),
        }
    }

    /// Parse an options body string into its label-to-fragment list; also
    /// returns the number of characters scanned.
    pub fn parse_options(&self, options_str: &str) -> (r: Result<
        (Vec<(String, Vec<AstNode>)>, usize),
        String,
    >)
        ensures
            match sp_options(options_str@) {
                Ok(opts) => r is Ok && view_opts(r->Ok_0.0@) == opts && r->Ok_0.1
                    == options_str@.len(),
                Err(_) => r is Err && r->Err_0@ == parse_error_text(),
            },
        decreases options_str@.len() + 2, 1int, 0int,
    {
        let body = chars_of(options_str);
        let n = body.len();
        match parse_options_go(&body, 0, 0, Vec::new(), Vec::new(), Vec::new()) {
            Err(e) => Err(e),
            Ok(options) => Ok((options, n)),
        }
    }
}

/// Find the first `c` in `v` at or after `from`.
fn find_char(v: &Vec<char>, from: usize, c: char) -> (r: Option<usize>)
    ensures
        match r {
            Some(j) => find_from(v@, from as int, c) == j as int && from <= j < v@.len(),
            None => find_from(v@, from as int, c) == -1,
        },
{
    let mut k = from;
    while k < v.len()
        invariant
            from <= k,
            find_from(v@, from as int, c) == find_from(v@, k as int, c),
        decreases v@.len() - k,
    {
        if v[k] == c {
            proof {
                lemma_find_from_bounds(v@, k as int, c);
            }
            return Some(k);
        }
        k = k + 1;
    }
    None
}

/// The options scan: one call per character, mirroring [`sp_options_at`].
fn parse_options_go(
    body: &Vec<char>,
    i: usize,
    depth: i128,
    key: Vec<char>,
    val: Vec<char>,
    acc: Vec<(String, Vec<AstNode>)>,
) -> (r: Result<Vec<(String, Vec<AstNode>)>, String>)
    requires
        i <= body@.len(),
        -(i as int) - 1 <= depth as int <= i as int + 1,
    ensures
        match sp_options_at(body@, i as int, depth as int, key@, val@, view_opts(acc@)) {
            Ok(o) => r is Ok && view_opts(r->Ok_0@) == o,
            Err(_) => r is Err && r->Err_0@ == parse_error_text(),
        },
    decreases
            val@.len() + (body@.len() - i) + 1,
            0int,
            body@.len() - i,
{
    if i >= body.len() {
        return Ok(acc);
    }
    let ch = body[i];
    if ch == '{' {
        let depth2 = depth + 1;
        let mut val2 = val;
        if depth2 > 1 {
            val2.push(ch);
        }
        parse_options_go(body, i + 1, depth2, key, val2, acc)
    } else if ch == '}' {
        let depth2 = depth - 1;
        if depth2 == 0 {
            let val_str = string_from_chars(&val);
            proof {
                lemma_lex_ttl(val@);
            }
            let sub = Parser::new(val_str.as_str());
            match sub.parse() {
                Err(e) => Err(e),
                Ok(ast) => {
                    let label = string_from_chars(&trim_chars(&key));
                    let nodes = ast.into_vec();
                    let acc2 = upsert_entry(acc, label, nodes);
                    parse_options_go(body, i + 1, 0, Vec::new(), Vec::new(), acc2)
                },
            }
        } else {
            let mut val2 = val;
            val2.push(ch);
            parse_options_go(body, i + 1, depth2, key, val2, acc)
        }
    } else {
        if depth == 0 {
            let mut key2 = key;
            key2.push(ch);
            parse_options_go(body, i + 1, depth, key2, val, acc)
        } else {
            let mut val2 = val;
            val2.push(ch);
            parse_options_go(body, i + 1, depth, key, val2, acc)
        }
    }
}

/// Insert or replace one option entry, mirroring [`upsert`].
fn upsert_entry(acc: Vec<(String, Vec<AstNode>)>, k: String, v: Vec<AstNode>) -> (r: Vec<
    (String, Vec<AstNode>),
>)
    ensures
        view_opts(r@) == upsert(view_opts(acc@), k@, view_nodes(v@)),
    decreases acc@.len(),
{
    let ghost acc0 = acc@;
    let mut acc = acc;
    if acc.len() == 0 {
        let mut r: Vec<(String, Vec<AstNode>)> = Vec::new();
        let ghost kv = k@;
        let ghost vv = view_nodes(v@);
        r.push((k, v));
        proof {
            assert(r@.len() == 1);
            assert(r@[0].0@ == kv && view_nodes(r@[0].1@) == vv);
            assert(r@.drop_first() =~= Seq::<(String, Vec<AstNode>)>::empty());
            assert(view_opts(Seq::<(String, Vec<AstNode>)>::empty())
                =~= Seq::<(Seq<char>, Seq<Ast>)>::empty());
            lemma_view_opts_cons(r@);
            assert(view_opts(r@) =~= seq![(kv, vv)]);
            assert(acc0.len() == 0);
            assert(view_opts(acc0) =~= Seq::<(Seq<char>, Seq<Ast>)>::empty());
            assert(upsert(view_opts(acc0), kv, vv) == seq![(kv, vv)]);
        }
        r
    } else {
        let first = acc.remove(0);
        proof {
            assert(acc@ =~= acc0.drop_first());
            assert(acc0[0] == first);
        }
        if first.0 == k {
            let ghost kv = k@;
            let ghost vv = view_nodes(v@);
            let ghost restv = view_opts(acc@);
            let mut r = acc;
            let ghost r0 = r@;
            r.insert(0, (k, v));
            proof {
                assert(r@[0].0@ == kv && view_nodes(r@[0].1@) == vv);
                assert(r@.drop_first() =~= r0);
                assert(view_opts(r@) =~= seq![(kv, vv)] + restv) by {
                    lemma_view_opts_cons(r@);
                }
                lemma_view_opts_cons(acc0);
                assert(view_opts(acc0)[0] == (acc0[0].0@, view_nodes(acc0[0].1@)));
                assert(view_opts(acc0)[0].0 == kv);
                assert(view_opts(acc0).drop_first() =~= view_opts(acc0.drop_first()));
                assert(upsert(view_opts(acc0), kv, vv) == seq![(kv, vv)] + view_opts(
                    acc0.drop_first(),
                ));
                assert(restv == view_opts(acc0.drop_first()));
            }
            r
        } else {
            let ghost fv = (first.0@, view_nodes(first.1@));
            let mut r = upsert_entry(acc, k, v);
            let ghost rv = view_opts(r@);
            let ghost r0 = r@;
            r.insert(0, first);
            proof {
                assert(r@[0] == acc0[0]);
                assert(r@.drop_first() =~= r0);
                assert(view_opts(r@) =~= seq![fv] + rv) by {
                    lemma_view_opts_cons(r@);
                }
                lemma_view_opts_cons(acc0);
                assert(view_opts(acc0)[0] == (acc0[0].0@, view_nodes(acc0[0].1@)));
                assert(view_opts(acc0)[0].0 != k@);
                assert(view_opts(acc0).drop_first() =~= view_opts(acc0.drop_first()));
                assert(upsert(view_opts(acc0), k@, view_nodes(v@)) == seq![view_opts(
                    acc0,
                )[0]] + upsert(view_opts(acc0).drop_first(), k@, view_nodes(v@)));
                assert(fv == view_opts(acc0)[0]);
            }
            r
        }
    }
}

proof fn lemma_view_opts_cons(v: Seq<(String, Vec<AstNode>)>)
    requires
        v.len() > 0,
    ensures
        view_opts(v) == seq![(v[0].0@, view_nodes(v[0].1@))] + view_opts(v.drop_first()),
{
}

} // verus!

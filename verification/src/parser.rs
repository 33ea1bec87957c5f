//! Parsing a token stream into evaluator input.
//!
//! The specification side is `parse_node_s` / `parse_items_s`, a total
//! recursive-descent parser over lexemes producing an abstract syntax tree
//! (`Ast`); the executable parser must produce a `Value` that represents
//! exactly that tree, consuming exactly the same tokens.

use vstd::prelude::*;

use std::rc::Rc;

use crate::lexer::{lex_s, tok_views, tokenize, Lexeme, Token};
use crate::text::copy_chars;
use crate::value::Value;

verus! {

/// The abstract syntax tree a token stream denotes.
pub enum Ast {
    Number(i64),
    Str(Seq<char>),
    Symbol(Seq<char>),
    List(Seq<Ast>),
}

/// Does this runtime value represent exactly this abstract syntax tree?
pub open spec fn represents(v: Value, a: Ast) -> bool
    decreases a,
{
    match a {
        Ast::Number(n) => v matches Value::Number(m) && m == n,
        Ast::Str(t) => v matches Value::Str(s) && s@ == t,
        Ast::Symbol(t) => v matches Value::Symbol(s) && s@ == t,
        Ast::List(items) => v matches Value::List(l) && l@.len() == items.len() && (forall|i: int|
            0 <= i < items.len() ==> represents(l@[i], #[trigger] items[i])),
    }
}

/// Parse one node at `cur`: a number, string or symbol token by itself, or a
/// bracketed list. Yields the tree and the count of tokens consumed; `None`
/// on any other token or at the end of the stream.
pub open spec fn parse_node_s(toks: Seq<Lexeme>, cur: int) -> Option<(Ast, int)>
    decreases toks.len() - cur, 1int,
{
    if !(0 <= cur < toks.len()) {
        None
    } else {
        match toks[cur] {
            Lexeme::Open => match parse_list_s(toks, cur) {
                Some((ast, used)) => Some((ast, used)),
                None => None,
            },
            Lexeme::Number(n) => Some((Ast::Number(n), 1)),
            Lexeme::Str(s) => Some((Ast::Str(s), 1)),
            Lexeme::Symbol(s) => Some((Ast::Symbol(s), 1)),
            _ => None,
        }
    }
}

/// Parse the list that opens at `cur` (which must hold the opening bracket):
/// its elements up to and including the matching closing bracket.
pub open spec fn parse_list_s(toks: Seq<Lexeme>, cur: int) -> Option<(Ast, int)>
    decreases toks.len() - cur, 0int,
{
    if !(0 <= cur < toks.len()) {
        None
    } else {
        match parse_items_s(toks, cur + 1) {
            Some((items, used)) => Some((Ast::List(items), 1 + used)),
            None => None,
        }
    }
}

/// Parse list elements until a closing bracket, which is consumed. The
/// count a recursive parse hands back is always between 1 and the tokens
/// remaining; the clamp here only makes that evident to the termination
/// checker.
pub open spec fn parse_items_s(toks: Seq<Lexeme>, cur: int) -> Option<(Seq<Ast>, int)>
    decreases toks.len() - cur, 2int,
{
    if !(0 <= cur < toks.len()) {
        None
    } else if toks[cur] is Close {
        Some((Seq::empty(), 1))
    } else {
        match parse_node_s(toks, cur) {
            Some((ast, used0)) => {
                let used = if used0 < 1 {
                    1
                } else if used0 > toks.len() - cur {
                    toks.len() - cur
                } else {
                    used0
                };
                match parse_items_s(toks, cur + used) {
                    Some((items, used2)) => Some((items.insert(0, ast), used + used2)),
                    None => None,
                }
            },
            None => None,
        }
    }
}

/// A successful parse of one node consumes at least one token and no more
/// than remain, so the clamp in `parse_items_s` never alters the count a
/// recursive parse hands back.
pub proof fn lemma_parse_node_used(toks: Seq<Lexeme>, cur: int)
    ensures
        parse_node_s(toks, cur) matches Some((a, used)) ==> 1 <= used <= toks.len() - cur,
    decreases toks.len() - cur, 1int,
{
    if 0 <= cur < toks.len() {
        if toks[cur] is Open {
            lemma_parse_list_used(toks, cur);
        }
    }
}

/// As `lemma_parse_node_used`, for a bracketed list.
pub proof fn lemma_parse_list_used(toks: Seq<Lexeme>, cur: int)
    ensures
        parse_list_s(toks, cur) matches Some((a, used)) ==> 1 <= used <= toks.len() - cur,
    decreases toks.len() - cur, 0int,
{
    if 0 <= cur < toks.len() {
        lemma_parse_items_used(toks, cur + 1);
    }
}

/// As `lemma_parse_node_used`, for list elements up to the closing bracket.
pub proof fn lemma_parse_items_used(toks: Seq<Lexeme>, cur: int)
    ensures
        parse_items_s(toks, cur) matches Some((a, used)) ==> 1 <= used <= toks.len() - cur,
    decreases toks.len() - cur, 2int,
{
    if 0 <= cur < toks.len() && !(toks[cur] is Close) {
        lemma_parse_node_used(toks, cur);
        match parse_node_s(toks, cur) {
            Some((ast, used0)) => {
                let used = if used0 < 1 {
                    1
                } else if used0 > toks.len() - cur {
                    toks.len() - cur
                } else {
                    used0
                };
                lemma_parse_items_used(toks, cur + used);
            },
            None => {},
        }
    }
}

/// A cursor over a borrowed token stream.
pub struct Parser<'a> {
    pub tokens: &'a Vec<Token>,
    pub cursor: usize,
}

impl<'a> Parser<'a> {
    pub fn new(tokens: &'a Vec<Token>) -> (p: Parser<'a>)
        ensures
            p.tokens == tokens,
            p.cursor == 0,
    {
        Parser { tokens, cursor: 0 }
    }

    /// The token under the cursor, if any, without consuming it.
    pub fn peek(&self) -> (r: Option<&Token>)
        ensures
            self.cursor < self.tokens@.len() ==> (r matches Some(t) && *t == self.tokens@[self.cursor as int]),
            self.cursor >= self.tokens@.len() ==> r is None,
    {
        if self.cursor < self.tokens.len() {
            Some(&self.tokens[self.cursor])
        } else {
            None
        }
    }

    /// Consume and return the token under the cursor, if any.
    pub fn advance(&mut self) -> (r: Option<&'a Token>)
        ensures
            final(self).tokens == old(self).tokens,
            old(self).cursor < old(self).tokens@.len() ==> (r matches Some(t) && *t == old(self).tokens@[old(self).cursor as int] && final(self).cursor == old(self).cursor + 1),
            old(self).cursor >= old(self).tokens@.len() ==> (r is None && final(self).cursor == old(self).cursor),
    {
        if self.cursor < self.tokens.len() {
            let t = &self.tokens[self.cursor];
            self.cursor = self.cursor + 1;
            Some(t)
        } else {
            None
        }
    }
}

/// Parse one node from the cursor on, exactly as `parse_node_s` prescribes.
pub fn parse_node(parser: &mut Parser) -> (r: Option<Value>)
    requires
        old(parser).cursor <= old(parser).tokens@.len(),
    ensures
        final(parser).tokens == old(parser).tokens,
        final(parser).cursor <= final(parser).tokens@.len(),
        ({
            let toks = tok_views(old(parser).tokens@);
            match parse_node_s(toks, old(parser).cursor as int) {
                Some((ast, used)) => r matches Some(v) && represents(v, ast) && final(parser).cursor == old(parser).cursor + used && 1 <= used <= toks.len() - old(parser).cursor,
                None => r is None,
            }
        }),
    decreases parser.tokens@.len() - parser.cursor, 1int,
{
    let c = parser.cursor;
    if c >= parser.tokens.len() {
        return None;
    }
    proof {
        assert(tok_views(parser.tokens@)[c as int] == crate::lexer::tok_view(
            parser.tokens@[c as int],
        ));
    }
    let t: &Token = &parser.tokens[c];
    match t {
        Token::Open => parse_list(parser),
        Token::Number(n) => {
            let v = *n;
            parser.cursor = c + 1;
            Some(Value::Number(v))
        },
        Token::Str(sv) => {
            let content = copy_chars(sv);
            parser.cursor = c + 1;
            Some(Value::Str(Rc::new(content)))
        },
        Token::Symbol(sv) => {
            let content = copy_chars(sv);
            parser.cursor = c + 1;
            Some(Value::Symbol(Rc::new(content)))
        },
        _ => None,
    }
}

/// Parse the bracketed list that opens at the cursor, exactly as
/// `parse_list_s` prescribes.
pub fn parse_list(parser: &mut Parser) -> (r: Option<Value>)
    requires
        old(parser).cursor < old(parser).tokens@.len(),
        tok_views(old(parser).tokens@)[old(parser).cursor as int] is Open,
    ensures
        final(parser).tokens == old(parser).tokens,
        final(parser).cursor <= final(parser).tokens@.len(),
        ({
            let toks = tok_views(old(parser).tokens@);
            match parse_list_s(toks, old(parser).cursor as int) {
                Some((ast, used)) => r matches Some(v) && represents(v, ast) && final(parser).cursor == old(parser).cursor + used && 1 <= used <= toks.len() - old(parser).cursor,
                None => r is None,
            }
        }),
    decreases parser.tokens@.len() - parser.cursor, 0int,
{
    let c = parser.cursor;
    let n = parser.tokens.len();
    assert(c < n);
    parser.cursor = c + 1;
    match parse_items(parser) {
        Some(items) => Some(Value::List(Rc::new(items))),
        None => None,
    }
}

/// Parse list elements up to and including the closing bracket, exactly as
/// `parse_items_s` prescribes.
pub fn parse_items(parser: &mut Parser) -> (r: Option<Vec<Value>>)
    requires
        old(parser).cursor <= old(parser).tokens@.len(),
    ensures
        final(parser).tokens == old(parser).tokens,
        final(parser).cursor <= final(parser).tokens@.len(),
        ({
            let toks = tok_views(old(parser).tokens@);
            match parse_items_s(toks, old(parser).cursor as int) {
                Some((asts, used)) => r matches Some(vals) && vals@.len() == asts.len() && (forall|
                    i: int,
                |
                    0 <= i < asts.len() ==> represents(vals@[i], #[trigger] asts[i])) && final(parser).cursor == old(parser).cursor + used && 1 <= used <= toks.len() - old(parser).cursor,
                None => r is None,
            }
        }),
    decreases parser.tokens@.len() - parser.cursor, 2int,
{
    let c = parser.cursor;
    if c >= parser.tokens.len() {
        return None;
    }
    proof {
        assert(tok_views(parser.tokens@)[c as int] == crate::lexer::tok_view(
            parser.tokens@[c as int],
        ));
    }
    let is_close = match &parser.tokens[c] {
        Token::Close => true,
        _ => false,
    };
    if is_close {
        parser.cursor = c + 1;
        return Some(Vec::new());
    }
    let v = match parse_node(parser) {
        Some(v) => v,
        None => {
            return None;
        },
    };
    match parse_items(parser) {
        Some(mut rest) => {
            rest.insert(0, v);
            Some(rest)
        },
        None => None,
    }
}

/// Parse a whole source text: tokenize it and parse exactly one node that
/// uses every token; anything else (no node, trailing tokens, a bad token)
/// is rejected.
pub fn parse(buf: &str) -> (r: Option<Value>)
    ensures
        ({
            let toks = lex_s(buf@, 0);
            match parse_node_s(toks, 0) {
                Some((ast, used)) => if used == toks.len() {
                    r matches Some(v) && represents(v, ast)
                } else {
                    r is None
                },
                None => r is None,
            }
        }),
{
    let tokens = tokenize(buf);
    let mut parser = Parser::new(&tokens);
    let node = parse_node(&mut parser);
    let more = parser.advance();
    match (node, more) {
        (Some(v), None) => Some(v),
        _ => None,
    }
}

} // verus!

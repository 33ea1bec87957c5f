//! Tokenization of program source text.
//!
//! The executable side is a character scanner and a lexer producing `Token`s;
//! the specification side is `lex_s`, a total function from the source
//! characters to the sequence of `Lexeme`s (the mathematical view of tokens)
//! that tokenization must produce.

use vstd::prelude::*;

use crate::text::str_to_chars;

verus! {

/// A token of the surface syntax. Number literals are non-negative digit
/// runs; a run whose value exceeds the number type is kept as `BadNumber` so
/// that parsing fails instead of misreading the literal.
#[derive(Debug, PartialEq)]
pub enum Token {
    Open,
    Close,
    Number(i64),
    Symbol(Vec<char>),
    Str(Vec<char>),
    UnterminatedString,
    BadNumber,
    Unknown(char),
}

/// The mathematical view of a token.
pub enum Lexeme {
    Open,
    Close,
    Number(i64),
    Symbol(Seq<char>),
    Str(Seq<char>),
    UnterminatedString,
    BadNumber,
    Unknown(char),
}

/// The view of one executable token.
pub open spec fn tok_view(t: Token) -> Lexeme {
    match t {
        Token::Open => Lexeme::Open,
        Token::Close => Lexeme::Close,
        Token::Number(n) => Lexeme::Number(n),
        Token::Symbol(s) => Lexeme::Symbol(s@),
        Token::Str(s) => Lexeme::Str(s@),
        Token::UnterminatedString => Lexeme::UnterminatedString,
        Token::BadNumber => Lexeme::BadNumber,
        Token::Unknown(c) => Lexeme::Unknown(c),
    }
}

/// The views of a token sequence.
pub open spec fn tok_views(ts: Seq<Token>) -> Seq<Lexeme> {
    Seq::new(ts.len(), |i: int| tok_view(ts[i]))
}

/// Whitespace separates tokens and is otherwise ignored.
pub open spec fn is_ws(c: char) -> bool {
    c == ' ' || c == '\n' || c == '\t' || c == '\r'
}

/// The decimal digits.
pub open spec fn is_digit(c: char) -> bool {
    '0' <= c && c <= '9'
}

/// Characters that may start a symbol.
pub open spec fn is_sym_start(c: char) -> bool {
    ('a' <= c && c <= 'z') || ('A' <= c && c <= 'Z') || c == '$' || c == '-' || c == '+' || c
        == '*' || c == '/' || c == '_'
}

/// Characters that may continue a symbol.
pub open spec fn is_sym_char(c: char) -> bool {
    is_sym_start(c) || is_digit(c)
}

/// The numeric value of a digit character.
pub open spec fn digit_val(c: char) -> int {
    c as int - '0' as int
}

/// The value of a run of digit characters, most significant first.
pub open spec fn digits_val(ds: Seq<char>) -> int
    decreases ds.len(),
{
    if ds.len() == 0 {
        0
    } else {
        digits_val(ds.drop_last()) * 10 + digit_val(ds.last())
    }
}

/// The end of the digit run starting at `i`.
pub open spec fn scan_digits(s: Seq<char>, i: int) -> int
    recommends
        0 <= i <= s.len(),
    decreases s.len() - i,
{
    if 0 <= i < s.len() && is_digit(s[i]) {
        scan_digits(s, i + 1)
    } else {
        i
    }
}

/// The end of the symbol-character run starting at `i`.
pub open spec fn scan_sym(s: Seq<char>, i: int) -> int
    recommends
        0 <= i <= s.len(),
    decreases s.len() - i,
{
    if 0 <= i < s.len() && is_sym_char(s[i]) {
        scan_sym(s, i + 1)
    } else {
        i
    }
}

/// The position of the first `"` at or after `i`, or the end of the input.
pub open spec fn scan_quote(s: Seq<char>, i: int) -> int
    recommends
        0 <= i <= s.len(),
    decreases s.len() - i,
{
    if 0 <= i < s.len() && s[i] != '"' {
        scan_quote(s, i + 1)
    } else {
        i
    }
}

/// One tokenization step at position `i` (which must hold a character): the
/// produced lexeme, if any, and the position after it. Whitespace produces
/// nothing and moves on by one.
pub open spec fn step_s(s: Seq<char>, i: int) -> (Option<Lexeme>, int)
    recommends
        0 <= i < s.len(),
{
    let c = s[i];
    if is_ws(c) {
        (None, i + 1)
    } else if c == '[' {
        (Some(Lexeme::Open), i + 1)
    } else if c == ']' {
        (Some(Lexeme::Close), i + 1)
    } else if is_digit(c) {
        let j = scan_digits(s, i + 1);
        let v = digits_val(s.subrange(i, j));
        if v <= i64::MAX as int {
            (Some(Lexeme::Number(v as i64)), j)
        } else {
            (Some(Lexeme::BadNumber), j)
        }
    } else if is_sym_start(c) {
        let j = scan_sym(s, i + 1);
        (Some(Lexeme::Symbol(s.subrange(i, j))), j)
    } else if c == '"' {
        let j = scan_quote(s, i + 1);
        if j < s.len() {
            (Some(Lexeme::Str(s.subrange(i + 1, j))), j + 1)
        } else {
            (Some(Lexeme::UnterminatedString), j)
        }
    } else {
        (Some(Lexeme::Unknown(c)), i + 1)
    }
}

/// The tokens of the source characters from position `i` on. The position
/// handed back by `step_s` always lies in `(i, s.len()]`; the guards here
/// only make that evident to the termination checker.
pub open spec fn lex_s(s: Seq<char>, i: int) -> Seq<Lexeme>
    recommends
        0 <= i <= s.len(),
    decreases s.len() - i,
{
    if !(0 <= i < s.len()) {
        Seq::empty()
    } else {
        let (t, j0) = step_s(s, i);
        let j = if j0 < i + 1 {
            i + 1
        } else if j0 > s.len() {
            s.len() as int
        } else {
            j0
        };
        match t {
            Some(lx) => seq![lx] + lex_s(s, j),
            None => lex_s(s, j),
        }
    }
}

/// A scan never moves backward and never passes the end.
pub proof fn lemma_scan_digits_bounds(s: Seq<char>, i: int)
    requires
        0 <= i <= s.len(),
    ensures
        i <= scan_digits(s, i) <= s.len(),
    decreases s.len() - i,
{
    if i < s.len() && is_digit(s[i]) {
        lemma_scan_digits_bounds(s, i + 1);
    }
}

/// A scan never moves backward and never passes the end.
pub proof fn lemma_scan_sym_bounds(s: Seq<char>, i: int)
    requires
        0 <= i <= s.len(),
    ensures
        i <= scan_sym(s, i) <= s.len(),
    decreases s.len() - i,
{
    if i < s.len() && is_sym_char(s[i]) {
        lemma_scan_sym_bounds(s, i + 1);
    }
}

/// A scan never moves backward and never passes the end.
pub proof fn lemma_scan_quote_bounds(s: Seq<char>, i: int)
    requires
        0 <= i <= s.len(),
    ensures
        i <= scan_quote(s, i) <= s.len(),
    decreases s.len() - i,
{
    if i < s.len() && s[i] != '"' {
        lemma_scan_quote_bounds(s, i + 1);
    }
}

/// Each tokenization step consumes at least one character and stops within
/// the input, so the guards in `lex_s` never alter the position `step_s`
/// hands back.
pub proof fn lemma_step_in_range(s: Seq<char>, i: int)
    requires
        0 <= i < s.len(),
    ensures
        i + 1 <= step_s(s, i).1 <= s.len(),
{
    lemma_scan_digits_bounds(s, i + 1);
    lemma_scan_sym_bounds(s, i + 1);
    lemma_scan_quote_bounds(s, i + 1);
}

/// `scan_digits` lands exactly at the first position that is not a digit.
pub proof fn lemma_scan_digits_at(s: Seq<char>, i: int, j: int)
    requires
        0 <= i <= j <= s.len(),
        forall|k: int| i <= k < j ==> is_digit(s[k]),
        j == s.len() || !is_digit(s[j]),
    ensures
        scan_digits(s, i) == j,
    decreases j - i,
{
    if i < j {
        lemma_scan_digits_at(s, i + 1, j);
    }
}

/// `scan_sym` lands exactly at the first position that is not a symbol
/// character.
pub proof fn lemma_scan_sym_at(s: Seq<char>, i: int, j: int)
    requires
        0 <= i <= j <= s.len(),
        forall|k: int| i <= k < j ==> is_sym_char(s[k]),
        j == s.len() || !is_sym_char(s[j]),
    ensures
        scan_sym(s, i) == j,
    decreases j - i,
{
    if i < j {
        lemma_scan_sym_at(s, i + 1, j);
    }
}

/// `scan_quote` lands exactly at the first quote.
pub proof fn lemma_scan_quote_at(s: Seq<char>, i: int, j: int)
    requires
        0 <= i <= j <= s.len(),
        forall|k: int| i <= k < j ==> s[k] != '"',
        j == s.len() || s[j] == '"',
    ensures
        scan_quote(s, i) == j,
    decreases j - i,
{
    if i < j {
        lemma_scan_quote_at(s, i + 1, j);
    }
}

/// The value of a digit run is never negative.
pub proof fn lemma_digits_val_nonneg(ds: Seq<char>)
    requires
        forall|k: int| 0 <= k < ds.len() ==> is_digit(ds[k]),
    ensures
        digits_val(ds) >= 0,
    decreases ds.len(),
{
    if ds.len() > 0 {
        lemma_digits_val_nonneg(ds.drop_last());
    }
}

/// A digit run is worth at least any of its prefixes: appending digits never
/// shrinks the value.
pub proof fn lemma_digits_val_prefix(ds: Seq<char>, k: int)
    requires
        forall|j: int| 0 <= j < ds.len() ==> is_digit(ds[j]),
        0 <= k <= ds.len(),
    ensures
        digits_val(ds.subrange(0, k)) <= digits_val(ds),
    decreases ds.len() - k,
{
    if k == ds.len() {
        assert(ds.subrange(0, k) =~= ds);
    } else {
        lemma_digits_val_prefix(ds, k + 1);
        let p = ds.subrange(0, k + 1);
        assert(p.drop_last() =~= ds.subrange(0, k));
        lemma_digits_val_nonneg(ds.subrange(0, k));
        assert(digits_val(ds.subrange(0, k)) <= digits_val(p));
    }
}

/// The scanner: the source characters and a cursor. `next` consumes one
/// character; the conditional consumers take a character test and report
/// relationally which characters they saw.
pub struct Scanner {
    pub chars: Vec<char>,
    pub pos: usize,
}

impl Scanner {
    /// The cursor never passes the end.
    pub open spec fn wf(self) -> bool {
        self.pos <= self.chars@.len()
    }

    pub fn new(buf: &str) -> (s: Scanner)
        ensures
            s.chars@ == buf@,
            s.pos == 0,
            s.wf(),
    {
        Scanner { chars: str_to_chars(buf), pos: 0 }
    }

    /// Consume and return the character under the cursor, if any.
    pub fn next(&mut self) -> (r: Option<char>)
        requires
            old(self).wf(),
        ensures
            final(self).wf(),
            final(self).chars@ == old(self).chars@,
            old(self).pos < old(self).chars@.len() ==> r == Some(
                old(self).chars@[old(self).pos as int],
            ) && final(self).pos == old(self).pos + 1,
            old(self).pos == old(self).chars@.len() ==> r is None && final(self).pos == old(
                self,
            ).pos,
    {
        if self.pos < self.chars.len() {
            let c = self.chars[self.pos];
            self.pos = self.pos + 1;
            Some(c)
        } else {
            None
        }
    }

    /// The character under the cursor, if any, without consuming it.
    pub fn peek(&self) -> (r: Option<char>)
        requires
            self.wf(),
        ensures
            self.pos < self.chars@.len() ==> r == Some(self.chars@[self.pos as int]),
            self.pos == self.chars@.len() ==> r is None,
    {
        if self.pos < self.chars.len() {
            Some(self.chars[self.pos])
        } else {
            None
        }
    }

    /// Consume the character under the cursor when the character *after* it
    /// passes the test; report whether that happened.
    pub fn consume_if_next<F: Fn(char) -> bool>(&mut self, x: F) -> (r: bool)
        requires
            old(self).wf(),
            forall|c: char| call_requires(x, (c,)),
        ensures
            final(self).wf(),
            final(self).chars@ == old(self).chars@,
            r ==> old(self).pos + 1 < old(self).chars@.len() && call_ensures(
                x,
                (old(self).chars@[old(self).pos + 1],),
                true,
            ) && final(self).pos == old(self).pos + 1,
            !r ==> final(self).pos == old(self).pos && (old(self).pos + 1 >= old(
                self,
            ).chars@.len() || call_ensures(x, (old(self).chars@[old(self).pos + 1],), false)),
    {
        if self.pos < self.chars.len() && self.pos + 1 < self.chars.len() {
            let ch = self.chars[self.pos + 1];
            if x(ch) {
                self.pos = self.pos + 1;
                true
            } else {
                false
            }
        } else {
            false
        }
    }

    /// Consume the longest run of characters passing the test, starting at
    /// the cursor, and return it; the cursor stops at the first character
    /// that fails the test (or at the end).
    pub fn consume_while<F: Fn(char) -> bool>(&mut self, x: F) -> (r: Vec<char>)
        requires
            old(self).wf(),
            forall|c: char| call_requires(x, (c,)),
        ensures
            final(self).wf(),
            final(self).chars@ == old(self).chars@,
            old(self).pos <= final(self).pos,
            r@ == old(self).chars@.subrange(old(self).pos as int, final(self).pos as int),
            forall|k: int|
                old(self).pos <= k < final(self).pos ==> call_ensures(
                    x,
                    (old(self).chars@[k],),
                    true,
                ),
            final(self).pos == old(self).chars@.len() || call_ensures(
                x,
                (old(self).chars@[final(self).pos as int],),
                false,
            ),
    {
        let ghost start = self.pos;
        let mut out: Vec<char> = Vec::new();
        loop
            invariant
                self.wf(),
                self.chars@ == old(self).chars@,
                start <= self.pos,
                out@ =~= self.chars@.subrange(start as int, self.pos as int),
                forall|c: char| call_requires(x, (c,)),
                forall|k: int| start <= k < self.pos ==> call_ensures(x, (self.chars@[k],), true),
            ensures
                self.wf(),
                self.chars@ == old(self).chars@,
                start <= self.pos,
                out@ =~= self.chars@.subrange(start as int, self.pos as int),
                forall|k: int| start <= k < self.pos ==> call_ensures(x, (self.chars@[k],), true),
                self.pos == self.chars@.len() || call_ensures(
                    x,
                    (self.chars@[self.pos as int],),
                    false,
                ),
            decreases self.chars@.len() - self.pos,
        {
            if self.pos >= self.chars.len() {
                break;
            }
            let ch = self.chars[self.pos];
            if !x(ch) {
                break;
            }
            out.push(ch);
            self.pos = self.pos + 1;
        }
        proof {
            assert(out@ =~= self.chars@.subrange(start as int, self.pos as int));
        }
        out
    }
}


/// Does the executable token view as the given lexeme (or both say "no
/// token")?
pub open spec fn opt_tok_matches(r: Option<Token>, lx: Option<Lexeme>) -> bool {
    match (r, lx) {
        (Some(t), Some(l)) => tok_view(t) == l,
        (None, None) => true,
        _ => false,
    }
}

/// Executable digit test.
pub fn is_digit_c(c: char) -> (r: bool)
    ensures
        r == is_digit(c),
{
    let u = c as u32;
    48 <= u && u <= 57
}

/// Executable symbol-start test.
pub fn is_sym_start_c(c: char) -> (r: bool)
    ensures
        r == is_sym_start(c),
{
    let u = c as u32;
    (97 <= u && u <= 122) || (65 <= u && u <= 90) || c == '$' || c == '-' || c == '+' || c == '*'
        || c == '/' || c == '_'
}

/// Executable symbol-continuation test.
pub fn is_sym_char_c(c: char) -> (r: bool)
    ensures
        r == is_sym_char(c),
{
    is_sym_start_c(c) || is_digit_c(c)
}

/// Executable digit value.
pub fn digit_to_i64(c: char) -> (r: i64)
    requires
        is_digit(c),
    ensures
        r == digit_val(c),
        0 <= r <= 9,
{
    ((c as u32) - 48) as i64
}

/// The lexer drives a scanner and forms one token at a time.
pub struct Lexer {
    pub scanner: Scanner,
}

impl Lexer {
    pub fn new(buf: &str) -> (l: Lexer)
        ensures
            l.scanner.chars@ == buf@,
            l.scanner.pos == 0,
            l.scanner.wf(),
    {
        Lexer { scanner: Scanner::new(buf) }
    }

    /// Form the number token whose first digit `x` was just consumed: the
    /// token covers the whole digit run, and carries its value when that
    /// value is representable, else `BadNumber`.
    pub fn number(&mut self, x: char) -> (r: Option<Token>)
        requires
            old(self).scanner.wf(),
            old(self).scanner.pos >= 1,
            old(self).scanner.chars@[old(self).scanner.pos - 1] == x,
            is_digit(x),
        ensures
            final(self).scanner.wf(),
            final(self).scanner.chars@ == old(self).scanner.chars@,
            ({
                let (lx, j) = step_s(old(self).scanner.chars@, old(self).scanner.pos - 1);
                &&& opt_tok_matches(r, lx)
                &&& final(self).scanner.pos == j
                &&& old(self).scanner.pos <= final(self).scanner.pos
            }),
    {
        let ghost s = self.scanner.chars@;
        let ghost start = self.scanner.pos - 1;
        let dig_test = |a: char| -> (b: bool)
            ensures
                b == is_digit(a),
            { is_digit_c(a) };
        let rest = self.scanner.consume_while(dig_test);
        let ghost stop = self.scanner.pos as int;
        proof {
            assert forall|k: int| start + 1 <= k < stop implies is_digit(s[k]) by {
                assert(call_ensures(dig_test, (s[k],), true));
            }
            lemma_scan_digits_at(s, start + 1, stop);
        }
        let ghost ds = s.subrange(start, stop);
        proof {
            assert(ds =~= seq![x] + rest@);
            assert(forall|k: int| 0 <= k < ds.len() ==> is_digit(ds[k]));
            assert(ds.subrange(0, 1).drop_last() =~= Seq::<char>::empty());
            assert(ds.subrange(0, 1).last() == x);
            assert(ds.subrange(0, 1).len() == 1);
            assert(digits_val(Seq::<char>::empty()) == 0);
            assert(digits_val(ds.subrange(0, 1)) == digits_val(ds.subrange(0, 1).drop_last()) * 10
                + digit_val(ds.subrange(0, 1).last()));
            assert(digits_val(ds.subrange(0, 1)) == digit_val(x));
        }
        let mut val: i64 = digit_to_i64(x);
        let mut overflow: bool = false;
        let mut k: usize = 0;
        while k < rest.len()
            invariant
                0 <= k <= rest@.len(),
                ds =~= seq![x] + rest@,
                forall|j: int| 0 <= j < ds.len() ==> is_digit(ds[j]),
                !overflow ==> 0 <= val && val == digits_val(ds.subrange(0, k as int + 1)),
                overflow ==> digits_val(ds) > i64::MAX as int,
            decreases rest@.len() - k,
        {
            if !overflow {
                proof {
                    assert(ds[k as int + 1] == rest@[k as int]);
                    assert(is_digit(rest@[k as int]));
                }
                let d = digit_to_i64(rest[k]);
                proof {
                    let p = ds.subrange(0, k as int + 1);
                    let p2 = ds.subrange(0, k as int + 2);
                    assert(p2.drop_last() =~= p);
                    assert(p2.last() == rest@[k as int]);
                    lemma_digits_val_nonneg(p);
                }
                let next_val = match val.checked_mul(10) {
                    Some(v10) => v10.checked_add(d),
                    None => None,
                };
                match next_val {
                    Some(v2) => {
                        val = v2;
                    },
                    None => {
                        proof {
                            lemma_digits_val_prefix(ds, k as int + 2);
                        }
                        overflow = true;
                    },
                }
            }
            k = k + 1;
        }
        proof {
            if !overflow {
                assert(ds.subrange(0, ds.len() as int) =~= ds);
            }
        }
        if overflow {
            Some(Token::BadNumber)
        } else {
            Some(Token::Number(val))
        }
    }

    /// Form the symbol token whose first character `first` was just
    /// consumed: the token covers the whole run of symbol characters.
    pub fn symbol(&mut self, first: char) -> (r: Option<Token>)
        requires
            old(self).scanner.wf(),
            old(self).scanner.pos >= 1,
            old(self).scanner.chars@[old(self).scanner.pos - 1] == first,
            is_sym_start(first),
        ensures
            final(self).scanner.wf(),
            final(self).scanner.chars@ == old(self).scanner.chars@,
            ({
                let (lx, j) = step_s(old(self).scanner.chars@, old(self).scanner.pos - 1);
                &&& opt_tok_matches(r, lx)
                &&& final(self).scanner.pos == j
                &&& old(self).scanner.pos <= final(self).scanner.pos
            }),
    {
        let ghost s = self.scanner.chars@;
        let ghost start = self.scanner.pos - 1;
        let sym_test = |a: char| -> (b: bool)
            ensures
                b == is_sym_char(a),
            { is_sym_char_c(a) };
        let rest = self.scanner.consume_while(sym_test);
        let ghost stop = self.scanner.pos as int;
        proof {
            assert forall|k: int| start + 1 <= k < stop implies is_sym_char(s[k]) by {
                assert(call_ensures(sym_test, (s[k],), true));
            }
            lemma_scan_sym_at(s, start + 1, stop);
        }
        let mut v: Vec<char> = Vec::new();
        v.push(first);
        let mut k: usize = 0;
        while k < rest.len()
            invariant
                0 <= k <= rest@.len(),
                v@ =~= seq![first] + rest@.subrange(0, k as int),
            decreases rest@.len() - k,
        {
            v.push(rest[k]);
            k = k + 1;
        }
        proof {
            assert(rest@.subrange(0, rest@.len() as int) =~= rest@);
            assert(v@ =~= s.subrange(start, stop));
        }
        Some(Token::Symbol(v))
    }

    /// Form the token that begins with the just-consumed character `ch`:
    /// nothing for whitespace, a bracket, a number, a symbol, a string
    /// (unterminated when the closing quote is missing), or `Unknown`.
    pub fn match_token(&mut self, ch: char) -> (r: Option<Token>)
        requires
            old(self).scanner.wf(),
            old(self).scanner.pos >= 1,
            old(self).scanner.chars@[old(self).scanner.pos - 1] == ch,
        ensures
            final(self).scanner.wf(),
            final(self).scanner.chars@ == old(self).scanner.chars@,
            ({
                let (lx, j) = step_s(old(self).scanner.chars@, old(self).scanner.pos - 1);
                &&& opt_tok_matches(r, lx)
                &&& final(self).scanner.pos == j
                &&& old(self).scanner.pos <= final(self).scanner.pos
            }),
    {
        if ch == ' ' || ch == '\n' || ch == '\t' || ch == '\r' {
            None
        } else if ch == '[' {
            Some(Token::Open)
        } else if ch == ']' {
            Some(Token::Close)
        } else if is_digit_c(ch) {
            self.number(ch)
        } else if is_sym_start_c(ch) {
            self.symbol(ch)
        } else if ch == '"' {
            let ghost s = self.scanner.chars@;
            let ghost start = self.scanner.pos - 1;
            let quote_test = |a: char| -> (b: bool)
                ensures
                    b == (a != '"'),
                { a != '"' };
            let content = self.scanner.consume_while(quote_test);
            let ghost stop = self.scanner.pos as int;
            proof {
                assert forall|k: int| start + 1 <= k < stop implies s[k] != '"' by {
                    assert(call_ensures(quote_test, (s[k],), true));
                }
                lemma_scan_quote_at(s, start + 1, stop);
            }
            match self.scanner.next() {
                Some(_) => {
                    proof {
                        assert(content@ =~= s.subrange(start + 1, stop));
                    }
                    Some(Token::Str(content))
                },
                None => Some(Token::UnterminatedString),
            }
        } else {
            Some(Token::Unknown(ch))
        }
    }
}

/// Tokenize a whole source text: exactly the lexemes of `lex_s`.
pub fn tokenize(buf: &str) -> (r: Vec<Token>)
    ensures
        tok_views(r@) == lex_s(buf@, 0),
{
    let mut lexer = Lexer::new(buf);
    let mut tokens: Vec<Token> = Vec::new();
    loop
        invariant
            lexer.scanner.wf(),
            lexer.scanner.chars@ == buf@,
            tok_views(tokens@) + lex_s(buf@, lexer.scanner.pos as int) == lex_s(buf@, 0),
        ensures
            tok_views(tokens@) == lex_s(buf@, 0),
        decreases buf@.len() - lexer.scanner.pos,
    {
        let ghost p = lexer.scanner.pos as int;
        let ch = match lexer.scanner.next() {
            None => {
                proof {
                    assert(lex_s(buf@, p) =~= Seq::<Lexeme>::empty());
                    assert(tok_views(tokens@) + lex_s(buf@, p) =~= tok_views(tokens@));
                }
                break;
            },
            Some(c) => c,
        };
        let tok = lexer.match_token(ch);
        proof {
            let (lx, j) = step_s(buf@, p);
            assert(lexer.scanner.pos == j);
            assert(p + 1 <= j <= buf@.len());
            match lx {
                Some(l2) => {
                    assert(lex_s(buf@, p) == seq![l2] + lex_s(buf@, j));
                },
                None => {
                    assert(lex_s(buf@, p) == lex_s(buf@, j));
                },
            }
        }
        match tok {
            Some(t) => {
                proof {
                    assert(tok_views(tokens@.push(t)) =~= tok_views(tokens@) + seq![
                        tok_view(t),
                    ]);
                    assert(tok_views(tokens@.push(t)) + lex_s(buf@, lexer.scanner.pos as int)
                        =~= lex_s(buf@, 0));
                }
                tokens.push(t);
            },
            None => {},
        }
    }
    tokens
}

} // verus!

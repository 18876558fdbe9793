//! Lexing source text into tokens with character spans.
use vstd::prelude::*;
use vstd::string::StrSliceExecFns;
use vstd::string::StringExecFns;

verus! {

/// The kinds of token.
#[derive(Debug, Clone, PartialEq, Eq)]
pub enum TokenKind {
    Integer(i64),
    Fn,
    Let,
    If,
    Else,
    While,
    Ident(String),
    Plus,
    Minus,
    Star,
    Slash,
    Percent,
    Assign,
    Less,
    LessEqual,
    Greater,
    GreaterEqual,
    Equal,
    NotEqual,
    LeftParen,
    RightParen,
    LeftBrace,
    RightBrace,
    Semicolon,
    Comma,
    Eof,
}

/// A half-open range of character positions in the source.
#[derive(Debug, Clone, Copy, PartialEq, Eq, Structural)]
pub struct Span {
    pub start: usize,
    pub end: usize,
}

/// A token and where it stands in the source.
#[derive(Debug, Clone, PartialEq, Eq)]
pub struct Token {
    pub kind: TokenKind,
    pub span: Span,
}

impl TokenKind {
    /// A copy of this kind.
    pub fn duplicate(&self) -> (r: TokenKind)
        ensures
            r == *self,
    {
        match self {
            TokenKind::Integer(v) => TokenKind::Integer(*v),
            TokenKind::Fn => TokenKind::Fn,
            TokenKind::Let => TokenKind::Let,
            TokenKind::If => TokenKind::If,
            TokenKind::Else => TokenKind::Else,
            TokenKind::While => TokenKind::While,
            TokenKind::Ident(s) => TokenKind::Ident(s.clone()),
            TokenKind::Plus => TokenKind::Plus,
            TokenKind::Minus => TokenKind::Minus,
            TokenKind::Star => TokenKind::Star,
            TokenKind::Slash => TokenKind::Slash,
            TokenKind::Percent => TokenKind::Percent,
            TokenKind::Assign => TokenKind::Assign,
            TokenKind::Less => TokenKind::Less,
            TokenKind::LessEqual => TokenKind::LessEqual,
            TokenKind::Greater => TokenKind::Greater,
            TokenKind::GreaterEqual => TokenKind::GreaterEqual,
            TokenKind::Equal => TokenKind::Equal,
            TokenKind::NotEqual => TokenKind::NotEqual,
            TokenKind::LeftParen => TokenKind::LeftParen,
            TokenKind::RightParen => TokenKind::RightParen,
            TokenKind::LeftBrace => TokenKind::LeftBrace,
            TokenKind::RightBrace => TokenKind::RightBrace,
            TokenKind::Semicolon => TokenKind::Semicolon,
            TokenKind::Comma => TokenKind::Comma,
            TokenKind::Eof => TokenKind::Eof,
        }
    }
}

impl TokenKind {
    /// The name of this kind's variant.
    pub open spec fn spec_name(&self) -> Seq<char> {
        match self {
            TokenKind::Integer(_) => "Integer"@,
            TokenKind::Fn => "Fn"@,
            TokenKind::Let => "Let"@,
            TokenKind::If => "If"@,
            TokenKind::Else => "Else"@,
            TokenKind::While => "While"@,
            TokenKind::Ident(_) => "Ident"@,
            TokenKind::Plus => "Plus"@,
            TokenKind::Minus => "Minus"@,
            TokenKind::Star => "Star"@,
            TokenKind::Slash => "Slash"@,
            TokenKind::Percent => "Percent"@,
            TokenKind::Assign => "Assign"@,
            TokenKind::Less => "Less"@,
            TokenKind::LessEqual => "LessEqual"@,
            TokenKind::Greater => "Greater"@,
            TokenKind::GreaterEqual => "GreaterEqual"@,
            TokenKind::Equal => "Equal"@,
            TokenKind::NotEqual => "NotEqual"@,
            TokenKind::LeftParen => "LeftParen"@,
            TokenKind::RightParen => "RightParen"@,
            TokenKind::LeftBrace => "LeftBrace"@,
            TokenKind::RightBrace => "RightBrace"@,
            TokenKind::Semicolon => "Semicolon"@,
            TokenKind::Comma => "Comma"@,
            TokenKind::Eof => "Eof"@,
        }
    }

    /// The name of this kind's variant.
    pub fn name(&self) -> (r: &'static str)
        ensures
            r@ == self.spec_name(),
    {
        match self {
            TokenKind::Integer(_) => "Integer",
            TokenKind::Fn => "Fn",
            TokenKind::Let => "Let",
            TokenKind::If => "If",
            TokenKind::Else => "Else",
            TokenKind::While => "While",
            TokenKind::Ident(_) => "Ident",
            TokenKind::Plus => "Plus",
            TokenKind::Minus => "Minus",
            TokenKind::Star => "Star",
            TokenKind::Slash => "Slash",
            TokenKind::Percent => "Percent",
            TokenKind::Assign => "Assign",
            TokenKind::Less => "Less",
            TokenKind::LessEqual => "LessEqual",
            TokenKind::Greater => "Greater",
            TokenKind::GreaterEqual => "GreaterEqual",
            TokenKind::Equal => "Equal",
            TokenKind::NotEqual => "NotEqual",
            TokenKind::LeftParen => "LeftParen",
            TokenKind::RightParen => "RightParen",
            TokenKind::LeftBrace => "LeftBrace",
            TokenKind::RightBrace => "RightBrace",
            TokenKind::Semicolon => "Semicolon",
            TokenKind::Comma => "Comma",
            TokenKind::Eof => "Eof",
        }
    }

    /// Index of this kind's variant, payloads aside.
    pub open spec fn spec_tag(&self) -> u8 {
        match self {
            TokenKind::Integer(_) => 0,
            TokenKind::Fn => 1,
            TokenKind::Let => 2,
            TokenKind::If => 3,
            TokenKind::Else => 4,
            TokenKind::While => 5,
            TokenKind::Ident(_) => 6,
            TokenKind::Plus => 7,
            TokenKind::Minus => 8,
            TokenKind::Star => 9,
            TokenKind::Slash => 10,
            TokenKind::Percent => 11,
            TokenKind::Assign => 12,
            TokenKind::Less => 13,
            TokenKind::LessEqual => 14,
            TokenKind::Greater => 15,
            TokenKind::GreaterEqual => 16,
            TokenKind::Equal => 17,
            TokenKind::NotEqual => 18,
            TokenKind::LeftParen => 19,
            TokenKind::RightParen => 20,
            TokenKind::LeftBrace => 21,
            TokenKind::RightBrace => 22,
            TokenKind::Semicolon => 23,
            TokenKind::Comma => 24,
            TokenKind::Eof => 25,
        }
    }

    /// Index of this kind's variant, payloads aside.
    pub fn tag(&self) -> (r: u8)
        ensures
            r == self.spec_tag(),
    {
        match self {
            TokenKind::Integer(_) => 0,
            TokenKind::Fn => 1,
            TokenKind::Let => 2,
            TokenKind::If => 3,
            TokenKind::Else => 4,
            TokenKind::While => 5,
            TokenKind::Ident(_) => 6,
            TokenKind::Plus => 7,
            TokenKind::Minus => 8,
            TokenKind::Star => 9,
            TokenKind::Slash => 10,
            TokenKind::Percent => 11,
            TokenKind::Assign => 12,
            TokenKind::Less => 13,
            TokenKind::LessEqual => 14,
            TokenKind::Greater => 15,
            TokenKind::GreaterEqual => 16,
            TokenKind::Equal => 17,
            TokenKind::NotEqual => 18,
            TokenKind::LeftParen => 19,
            TokenKind::RightParen => 20,
            TokenKind::LeftBrace => 21,
            TokenKind::RightBrace => 22,
            TokenKind::Semicolon => 23,
            TokenKind::Comma => 24,
            TokenKind::Eof => 25,
        }
    }

    /// Whether two kinds are the same variant, payloads aside.
    pub open spec fn same_variant(&self, other: &TokenKind) -> bool {
        self.spec_tag() == other.spec_tag()
    }
}

impl Token {
    /// A copy of this token.
    pub fn duplicate(&self) -> (r: Token)
        ensures
            r == *self,
    {
        Token { kind: self.kind.duplicate(), span: self.span }
    }
}

pub open spec fn is_ws(c: char) -> bool {
    c == ' ' || c == '\t' || c == '\n' || c == '\r' || c == '\x0B' || c == '\x0C'
}

pub open spec fn is_digit(c: char) -> bool {
    '0' <= c <= '9'
}

pub open spec fn is_word_start(c: char) -> bool {
    ('a' <= c <= 'z') || ('A' <= c <= 'Z') || c == '_'
}

pub open spec fn is_word_char(c: char) -> bool {
    is_word_start(c) || is_digit(c)
}

pub open spec fn digit_value(c: char) -> int {
    c as int - '0' as int
}

/// First position at or after `p` that is not whitespace.
pub open spec fn skip_ws(s: Seq<char>, p: int) -> int
    decreases s.len() - p,
{
    if 0 <= p < s.len() && is_ws(s[p]) {
        skip_ws(s, p + 1)
    } else {
        p
    }
}

/// End of the run of digits starting at `p`.
pub open spec fn digits_end(s: Seq<char>, p: int) -> int
    decreases s.len() - p,
{
    if 0 <= p < s.len() && is_digit(s[p]) {
        digits_end(s, p + 1)
    } else {
        p
    }
}

/// End of the run of word characters starting at `p`.
pub open spec fn word_end(s: Seq<char>, p: int) -> int
    decreases s.len() - p,
{
    if 0 <= p < s.len() && is_word_char(s[p]) {
        word_end(s, p + 1)
    } else {
        p
    }
}

/// The number written by the digits `s[a..b]`.
pub open spec fn value_of(s: Seq<char>, a: int, b: int) -> int
    decreases b - a,
{
    if b <= a {
        0
    } else {
        value_of(s, a, b - 1) * 10 + digit_value(s[b - 1])
    }
}

/// The character after `p`, or NUL at the end.
pub open spec fn next_char(s: Seq<char>, p: int) -> char {
    if p + 1 < s.len() {
        s[p + 1]
    } else {
        '\0'
    }
}

/// The operator or delimiter at `p` and its end.
pub open spec fn punct(s: Seq<char>, p: int) -> Option<(TokenKind, int)> {
    let c = s[p];
    if c == '+' {
        Some((TokenKind::Plus, p + 1))
    } else if c == '-' {
        Some((TokenKind::Minus, p + 1))
    } else if c == '*' {
        Some((TokenKind::Star, p + 1))
    } else if c == '/' {
        Some((TokenKind::Slash, p + 1))
    } else if c == '%' {
        Some((TokenKind::Percent, p + 1))
    } else if c == '(' {
        Some((TokenKind::LeftParen, p + 1))
    } else if c == ')' {
        Some((TokenKind::RightParen, p + 1))
    } else if c == '{' {
        Some((TokenKind::LeftBrace, p + 1))
    } else if c == '}' {
        Some((TokenKind::RightBrace, p + 1))
    } else if c == ';' {
        Some((TokenKind::Semicolon, p + 1))
    } else if c == ',' {
        Some((TokenKind::Comma, p + 1))
    } else if c == '=' {
        if next_char(s, p) == '=' {
            Some((TokenKind::Equal, p + 2))
        } else {
            Some((TokenKind::Assign, p + 1))
        }
    } else if c == '<' {
        if next_char(s, p) == '=' {
            Some((TokenKind::LessEqual, p + 2))
        } else {
            Some((TokenKind::Less, p + 1))
        }
    } else if c == '>' {
        if next_char(s, p) == '=' {
            Some((TokenKind::GreaterEqual, p + 2))
        } else {
            Some((TokenKind::Greater, p + 1))
        }
    } else if c == '!' && next_char(s, p) == '=' {
        Some((TokenKind::NotEqual, p + 2))
    } else {
        None
    }
}

/// The kind of the word `w`: a keyword, else an identifier.
pub open spec fn word_kind_ok(k: TokenKind, w: Seq<char>) -> bool {
    if w == seq!['f', 'n'] {
        k == TokenKind::Fn
    } else if w == seq!['l', 'e', 't'] {
        k == TokenKind::Let
    } else if w == seq!['i', 'f'] {
        k == TokenKind::If
    } else if w == seq!['e', 'l', 's', 'e'] {
        k == TokenKind::Else
    } else if w == seq!['w', 'h', 'i', 'l', 'e'] {
        k == TokenKind::While
    } else {
        k is Ident && k->Ident_0@ == w
    }
}

/// End of the token that starts at `p`, or `None` where no token can start.
pub open spec fn token_end(s: Seq<char>, p: int) -> Option<int> {
    let c = s[p];
    if is_digit(c) {
        if value_of(s, p, digits_end(s, p)) <= i64::MAX {
            Some(digits_end(s, p))
        } else {
            None
        }
    } else if is_word_start(c) {
        Some(word_end(s, p))
    } else {
        match punct(s, p) {
            Some(pe) => Some(pe.1),
            None => None,
        }
    }
}

/// Whether `k` is the kind of the token `s[p..e]`.
pub open spec fn token_kind_ok(k: TokenKind, s: Seq<char>, p: int, e: int) -> bool {
    let c = s[p];
    if is_digit(c) {
        k == TokenKind::Integer(value_of(s, p, e) as i64)
    } else if is_word_start(c) {
        word_kind_ok(k, s.subrange(p, e))
    } else {
        punct(s, p) == Some((k, e))
    }
}

/// Whether the text from `pos` on splits into tokens.
pub open spec fn lexable_from(s: Seq<char>, pos: int) -> bool
    decreases s.len() - pos,
{
    let p = skip_ws(s, pos);
    if p >= s.len() || p < 0 {
        true
    } else {
        match token_end(s, p) {
            None => false,
            Some(e) => if pos <= p < e <= s.len() {
                lexable_from(s, e)
            } else {
                false
            },
        }
    }
}

/// Where lexing from `pos` on first meets text that starts no token.
pub open spec fn lex_failure(s: Seq<char>, pos: int) -> int
    decreases s.len() - pos,
{
    let p = skip_ws(s, pos);
    if p >= s.len() || p < 0 {
        -1
    } else {
        match token_end(s, p) {
            None => p,
            Some(e) => if pos <= p < e <= s.len() {
                lex_failure(s, e)
            } else {
                p
            },
        }
    }
}

/// Whether `toks` are the tokens of the text from `pos` on, closed by `Eof`.
pub open spec fn lexes_from(s: Seq<char>, pos: int, toks: Seq<Token>) -> bool
    decreases s.len() - pos,
{
    let p = skip_ws(s, pos);
    if p >= s.len() || p < 0 {
        toks == seq![Token { kind: TokenKind::Eof, span: Span { start: p as usize, end: p as usize } }]
    } else {
        match token_end(s, p) {
            None => false,
            Some(e) => if pos <= p < e <= s.len() {
                &&& toks.len() > 0
                &&& toks[0].span == Span { start: p as usize, end: e as usize }
                &&& token_kind_ok(toks[0].kind, s, p, e)
                &&& lexes_from(s, e, toks.drop_first())
            } else {
                false
            },
        }
    }
}

pub proof fn lemma_skip_ws_bounds(s: Seq<char>, p: int)
    requires
        0 <= p <= s.len(),
    ensures
        p <= skip_ws(s, p) <= s.len(),
    decreases s.len() - p,
{
    if p < s.len() && is_ws(s[p]) {
        lemma_skip_ws_bounds(s, p + 1);
    }
}

pub proof fn lemma_word_end_bounds(s: Seq<char>, p: int)
    requires
        0 <= p <= s.len(),
    ensures
        p <= word_end(s, p) <= s.len(),
        p < s.len() && is_word_char(s[p]) ==> p < word_end(s, p),
    decreases s.len() - p,
{
    if p < s.len() && is_word_char(s[p]) {
        lemma_word_end_bounds(s, p + 1);
    }
}

pub proof fn lemma_digits_end_bounds(s: Seq<char>, p: int)
    requires
        0 <= p <= s.len(),
    ensures
        p <= digits_end(s, p) <= s.len(),
        p < s.len() && is_digit(s[p]) ==> p < digits_end(s, p),
    decreases s.len() - p,
{
    if p < s.len() && is_digit(s[p]) {
        lemma_digits_end_bounds(s, p + 1);
    }
}

fn is_ascii_digit(c: char) -> (r: bool)
    ensures
        r == is_digit(c),
{
    '0' <= c && c <= '9'
}

fn is_word_char_exec(c: char) -> (r: bool)
    ensures
        r == is_word_char(c),
{
    ('a' <= c && c <= 'z') || ('A' <= c && c <= 'Z') || c == '_' || ('0' <= c && c <= '9')
}

fn is_ws_exec(c: char) -> (r: bool)
    ensures
        r == is_ws(c),
{
    c == ' ' || c == '\t' || c == '\n' || c == '\r' || c == '\x0B' || c == '\x0C'
}

/// A cursor over the characters of a source text.
pub struct Lexer {
    input: String,
    chars: Vec<char>,
    position: usize,
}

impl Lexer {
    /// The characters being lexed.
    pub closed spec fn text(&self) -> Seq<char> {
        self.chars@
    }

    /// The current position.
    pub closed spec fn pos(&self) -> int {
        self.position as int
    }

    pub closed spec fn wf(&self) -> bool {
        &&& self.input@ == self.chars@
        &&& self.position <= self.chars@.len()
    }

    pub fn new(input: &str) -> (r: Self)
        ensures
            r.wf(),
            r.text() == input@,
            r.pos() == 0,
    {
        let n = input.unicode_len();
        let mut chars: Vec<char> = Vec::new();
        let mut i: usize = 0;
        while i < n
            invariant
                n == input@.len(),
                i <= n,
                chars@ == input@.subrange(0, i as int),
            decreases n - i,
        {
            chars.push(input.get_char(i));
            i = i + 1;
            assert(chars@ =~= input@.subrange(0, i as int));
        }
        assert(input@.subrange(0, n as int) =~= input@);
        Lexer { input: input.to_owned(), chars, position: 0 }
    }

    /// Splits the text from the current position into tokens closed by
    /// `Eof`; fails with the position of the first character that starts no
    /// token, or of a number that does not fit in 64 bits.
    pub fn try_tokenize(&mut self) -> (r: Result<Vec<Token>, usize>)
        requires
            old(self).wf(),
        ensures
            final(self).wf(),
            r is Ok <==> lexable_from(old(self).text(), old(self).pos()),
            r is Ok ==> lexes_from(old(self).text(), old(self).pos(), r->Ok_0@),
            r is Err ==> r->Err_0 == lex_failure(old(self).text(), old(self).pos()),
    {
        let ghost s = self.chars@;
        let ghost start = self.position as int;
        let mut tokens: Vec<Token> = Vec::new();
        while !self.is_at_end()
            invariant
                self.wf(),
                self.chars@ == s,
                old(self).text() == s,
                start == old(self).pos(),
                start <= self.position,
                lexable_from(s, start) == lexable_from(s, self.position as int),
                lex_failure(s, start) == lex_failure(s, self.position as int),
                forall|rest: Seq<Token>|
                    lexes_from(s, self.position as int, rest) ==> lexes_from(
                        s,
                        start,
                        tokens@ + rest,
                    ),
            decreases s.len() - self.position,
        {
            let ghost before = self.position as int;
            proof {
                lemma_skip_ws_bounds(s, before);
            }
            self.skip_whitespace();
            assert(skip_ws(s, before) == self.position);
            if !self.is_at_end() {
                let at = self.position;
                let ghost p = self.position as int;
                match self.next_token() {
                    None => {
                        assert(!lexable_from(s, before));
                        assert(lex_failure(s, before) == p);
                        return Err(at);
                    },
                    Some(t) => {
                        assert(lexable_from(s, before) == lexable_from(s, self.position as int));
                        assert(lex_failure(s, before) == lex_failure(s, self.position as int));
                        let ghost e = self.position as int;
                        let ghost old_tokens = tokens@;
                        tokens.push(t);
                        assert forall|rest: Seq<Token>|
                            lexes_from(s, e, rest) implies lexes_from(
                            s,
                            start,
                            tokens@ + rest,
                        ) by {
                            assert((seq![t] + rest).drop_first() =~= rest);
                            assert(lexes_from(s, before, seq![t] + rest));
                            assert(old_tokens + (seq![t] + rest) =~= tokens@ + rest);
                        }
                    },
                }
            } else {
                assert forall|rest: Seq<Token>|
                    lexes_from(s, self.position as int, rest) implies lexes_from(
                    s,
                    start,
                    tokens@ + rest,
                ) by {
                    assert(lexes_from(s, before, rest));
                }
            }
        }
        let eof = Token {
            kind: TokenKind::Eof,
            span: Span { start: self.position, end: self.position },
        };
        let ghost tail = seq![eof];
        let ghost before_toks = tokens@;
        assert(lexes_from(s, self.position as int, tail));
        assert(lexes_from(s, start, before_toks + tail));
        tokens.push(eof);
        assert(tokens@ =~= before_toks + tail);
        Ok(tokens)
    }

    /// Splits the text from the current position into tokens closed by `Eof`.
    pub fn tokenize(&mut self) -> (r: Vec<Token>)
        requires
            old(self).wf(),
            lexable_from(old(self).text(), old(self).pos()),
        ensures
            final(self).wf(),
            lexes_from(old(self).text(), old(self).pos(), r@),
    {
        self.try_tokenize().unwrap()
    }

    /// Lexes the token at the current position, which is not whitespace and
    /// not the end.
    fn next_token(&mut self) -> (r: Option<Token>)
        requires
            old(self).wf(),
            old(self).position < old(self).chars@.len(),
        ensures
            final(self).wf(),
            final(self).text() == old(self).text(),
            match token_end(old(self).text(), old(self).pos()) {
                None => r is None,
                Some(e) => {
                    &&& r is Some
                    &&& old(self).pos() < e <= old(self).text().len()
                    &&& final(self).pos() == e
                    &&& r->Some_0.span == Span { start: old(self).position, end: e as usize }
                    &&& token_kind_ok(r->Some_0.kind, old(self).text(), old(self).pos(), e)
                },
            },
    {
        let ghost s = self.chars@;
        let start = self.position;
        let c = self.current_char();
        if c == '+' {
            Some(self.make_token(TokenKind::Plus, start))
        } else if c == '-' {
            Some(self.make_token(TokenKind::Minus, start))
        } else if c == '*' {
            Some(self.make_token(TokenKind::Star, start))
        } else if c == '/' {
            Some(self.make_token(TokenKind::Slash, start))
        } else if c == '%' {
            Some(self.make_token(TokenKind::Percent, start))
        } else if c == '(' {
            Some(self.make_token(TokenKind::LeftParen, start))
        } else if c == ')' {
            Some(self.make_token(TokenKind::RightParen, start))
        } else if c == '{' {
            Some(self.make_token(TokenKind::LeftBrace, start))
        } else if c == '}' {
            Some(self.make_token(TokenKind::RightBrace, start))
        } else if c == ';' {
            Some(self.make_token(TokenKind::Semicolon, start))
        } else if c == ',' {
            Some(self.make_token(TokenKind::Comma, start))
        } else if c == '=' || c == '<' || c == '>' || c == '!' {
            self.advance();
            let doubled = self.current_char() == '=';
            if doubled {
                self.advance();
            }
            let kind = if c == '=' {
                if doubled {
                    TokenKind::Equal
                } else {
                    TokenKind::Assign
                }
            } else if c == '<' {
                if doubled {
                    TokenKind::LessEqual
                } else {
                    TokenKind::Less
                }
            } else if c == '>' {
                if doubled {
                    TokenKind::GreaterEqual
                } else {
                    TokenKind::Greater
                }
            } else if doubled {
                TokenKind::NotEqual
            } else {
                return None;
            };
            Some(Token { kind, span: Span { start, end: self.position } })
        } else if '0' <= c && c <= '9' {
            self.lex_number(start)
        } else if ('a' <= c && c <= 'z') || ('A' <= c && c <= 'Z') || c == '_' {
            Some(self.lex_ident_or_keyword(start))
        } else {
            None
        }
    }

    fn lex_number(&mut self, start: usize) -> (r: Option<Token>)
        requires
            old(self).wf(),
            old(self).position == start,
            start < old(self).chars@.len(),
            is_digit(old(self).chars@[start as int]),
        ensures
            final(self).wf(),
            final(self).text() == old(self).text(),
            ({
                let e = digits_end(old(self).text(), start as int);
                if value_of(old(self).text(), start as int, e) <= i64::MAX {
                    &&& r == Some(
                        Token {
                            kind: TokenKind::Integer(
                                value_of(old(self).text(), start as int, e) as i64,
                            ),
                            span: Span { start, end: e as usize },
                        },
                    )
                    &&& final(self).pos() == e
                    &&& start < e <= old(self).text().len()
                } else {
                    r is None
                }
            }),
    {
        let ghost s = self.chars@;
        let mut value: i64 = 0;
        let mut overflow = false;
        while self.position < self.chars.len() && is_ascii_digit(self.chars[self.position])
            invariant
                self.wf(),
                self.chars@ == s,
                start <= self.position <= s.len(),
                digits_end(s, start as int) == digits_end(s, self.position as int),
                forall|k: int| start <= k < self.position ==> is_digit(#[trigger] s[k]),
                !overflow ==> value == value_of(s, start as int, self.position as int),
                overflow ==> value_of(s, start as int, self.position as int) > i64::MAX,
                value_of(s, start as int, self.position as int) >= 0,
            decreases s.len() - self.position,
        {
            let c = self.chars[self.position];
            let d = (c as u32 - '0' as u32) as i64;
            let ghost pos = self.position as int;
            assert(value_of(s, start as int, pos + 1) == value_of(s, start as int, pos) * 10 + d);
            if !overflow {
                if value > (i64::MAX - d) / 10 {
                    overflow = true;
                } else {
                    value = value * 10 + d;
                }
            }
            self.advance();
        }
        proof {
            lemma_digits_end_bounds(s, start as int);
        }
        if overflow {
            None
        } else {
            Some(
                Token {
                    kind: TokenKind::Integer(value),
                    span: Span { start, end: self.position },
                },
            )
        }
    }

    fn lex_ident_or_keyword(&mut self, start: usize) -> (r: Token)
        requires
            old(self).wf(),
            old(self).position == start,
            start < old(self).chars@.len(),
            is_word_start(old(self).chars@[start as int]),
        ensures
            final(self).wf(),
            final(self).text() == old(self).text(),
            ({
                let e = word_end(old(self).text(), start as int);
                &&& final(self).pos() == e
                &&& start < e <= old(self).text().len()
                &&& r.span == Span { start, end: e as usize }
                &&& word_kind_ok(r.kind, old(self).text().subrange(start as int, e))
            }),
    {
        let ghost s = self.chars@;
        while self.position < self.chars.len() && is_word_char_exec(self.chars[self.position])
            invariant
                self.wf(),
                self.chars@ == s,
                start <= self.position <= s.len(),
                word_end(s, start as int) == word_end(s, self.position as int),
            decreases s.len() - self.position,
        {
            self.advance();
        }
        proof {
            lemma_word_end_bounds(s, start as int);
            reveal_strlit("fn");
            reveal_strlit("let");
            reveal_strlit("if");
            reveal_strlit("else");
            reveal_strlit("while");
            assert("fn"@ =~= seq!['f', 'n']);
            assert("let"@ =~= seq!['l', 'e', 't']);
            assert("if"@ =~= seq!['i', 'f']);
            assert("else"@ =~= seq!['e', 'l', 's', 'e']);
            assert("while"@ =~= seq!['w', 'h', 'i', 'l', 'e']);
        }
        let end = self.position;
        let text = self.input.as_str().substring_char(start, end);
        assert(text@ == s.subrange(start as int, end as int));
        let kind = if self.word_is(start, end, "fn") {
            TokenKind::Fn
        } else if self.word_is(start, end, "let") {
            TokenKind::Let
        } else if self.word_is(start, end, "if") {
            TokenKind::If
        } else if self.word_is(start, end, "else") {
            TokenKind::Else
        } else if self.word_is(start, end, "while") {
            TokenKind::While
        } else {
            TokenKind::Ident(text.to_owned())
        };
        Token { kind, span: Span { start, end } }
    }

    /// Whether the characters `start..end` spell `word`.
    fn word_is(&self, start: usize, end: usize, word: &str) -> (r: bool)
        requires
            self.wf(),
            start <= end <= self.chars@.len(),
        ensures
            r == (self.chars@.subrange(start as int, end as int) == word@),
    {
        let n = word.unicode_len();
        if n != end - start {
            return false;
        }
        let mut i: usize = 0;
        while i < n
            invariant
                n == word@.len(),
                n == end - start,
                start <= end <= self.chars@.len(),
                i <= n,
                forall|k: int| 0 <= k < i ==> self.chars@[start + k] == word@[k],
            decreases n - i,
        {
            if self.chars[start + i] != word.get_char(i) {
                assert(self.chars@.subrange(start as int, end as int)[i as int] != word@[i as int]);
                return false;
            }
            i = i + 1;
        }
        assert(self.chars@.subrange(start as int, end as int) =~= word@);
        true
    }

    fn make_token(&mut self, kind: TokenKind, start: usize) -> (r: Token)
        requires
            old(self).wf(),
            old(self).position == start,
            start < old(self).chars@.len(),
        ensures
            final(self).wf(),
            final(self).text() == old(self).text(),
            final(self).pos() == start + 1,
            r == (Token { kind, span: Span { start, end: (start + 1) as usize } }),
    {
        self.advance();
        Token { kind, span: Span { start, end: self.position } }
    }

    fn skip_whitespace(&mut self)
        requires
            old(self).wf(),
        ensures
            final(self).wf(),
            final(self).text() == old(self).text(),
            final(self).pos() == skip_ws(old(self).text(), old(self).pos()),
    {
        while self.position < self.chars.len() && is_ws_exec(self.chars[self.position])
            invariant
                self.wf(),
                self.chars@ == old(self).chars@,
                old(self).position <= self.position,
                skip_ws(self.chars@, old(self).position as int) == skip_ws(
                    self.chars@,
                    self.position as int,
                ),
            decreases self.chars@.len() - self.position,
        {
            self.advance();
        }
    }

    /// The character at the current position, or NUL at the end.
    fn current_char(&self) -> (c: char)
        requires
            self.wf(),
        ensures
            c == (if self.position < self.chars@.len() {
                self.chars@[self.pos()]
            } else {
                '\0'
            }),
    {
        if self.position < self.chars.len() {
            self.chars[self.position]
        } else {
            '\0'
        }
    }

    fn advance(&mut self)
        requires
            old(self).wf(),
        ensures
            final(self).wf(),
            final(self).chars == old(self).chars,
            final(self).input == old(self).input,
            final(self).position == if old(self).position < old(self).chars@.len() {
                old(self).position + 1
            } else {
                old(self).position as int
            },
    {
        if self.position < self.chars.len() {
            self.position = self.position + 1;
        }
    }

    fn is_at_end(&self) -> (r: bool)
        requires
            self.wf(),
        ensures
            r == (self.position >= self.chars@.len()),
    {
        self.position >= self.chars.len()
    }
}

} // verus!

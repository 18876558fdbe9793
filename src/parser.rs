//! Recursive-descent parsing of tokens into the concrete syntax tree.
use crate::ast::{
    AssignStatementNode, BinaryExprNode, BlockNode, CallExprNode, CstNode, CstRoot, ElseBodyNode,
    ElseClauseNode, ExpressionNode, ExpressionStatementNode, FunctionNode, IfStatementNode,
    LetStatementNode, ParamListNode, StatementNode, TokenNode, Trivia, WhileStatementNode,
};
use crate::lexer::{Span, Token, TokenKind};
use crate::text::join;
use vstd::prelude::*;
use vstd::string::StringExecFns;

verus! {

/// A syntax error at a token.
#[derive(Debug, Clone, PartialEq)]
pub struct ParseError {
    pub message: String,
    pub span: Span,
}

pub type ParseResult<T> = Result<T, ParseError>;

/// The token that stands for "no more input".
pub open spec fn end_token() -> Token {
    Token { kind: TokenKind::Eof, span: Span { start: 0, end: 0 } }
}

/// Whether a token kind is a binary operator.
pub open spec fn is_binary_operator(k: TokenKind) -> bool {
    k is Plus || k is Minus || k is Star || k is Slash || k is Percent || k is LessEqual
        || k is Less || k is Greater || k is GreaterEqual || k is Equal || k is NotEqual
}

/// The trees that the parser builds: literals hold integers, names hold
/// identifiers, operators are binary operator tokens, and calls take at most
/// one argument.
pub open spec fn wf_expr(e: ExpressionNode) -> bool
    decreases e,
{
    match e {
        ExpressionNode::Literal(t) => t.kind is Integer,
        ExpressionNode::Identifier(t) => t.kind is Ident,
        ExpressionNode::Binary(b) => is_binary_operator(b.operator.kind) && wf_expr(*b.left)
            && wf_expr(*b.right),
        ExpressionNode::Call(c) => wf_expr(*c.function) && c.args@.len() <= 1 && wf_exprs(
            c.args@,
        ),
        ExpressionNode::If(i) => wf_if(*i),
        ExpressionNode::While(w) => wf_expr(w.condition) && wf_block(w.body),
    }
}

pub open spec fn wf_exprs(es: Seq<ExpressionNode>) -> bool
    decreases es,
{
    es.len() == 0 || (wf_exprs(es.drop_last()) && wf_expr(es.last()))
}

pub open spec fn wf_if(i: IfStatementNode) -> bool
    decreases i,
{
    wf_expr(i.condition) && wf_block(i.then_block) && match i.else_clause {
        None => true,
        Some(c) => match c.body {
            ElseBodyNode::Block(b) => wf_block(*b),
            ElseBodyNode::If(n) => wf_if(*n),
        },
    }
}

pub open spec fn wf_block(b: BlockNode) -> bool
    decreases b,
{
    wf_stmts(b.statements@) && match b.final_expr {
        Some(e) => wf_expr(e),
        None => true,
    }
}

pub open spec fn wf_stmts(ss: Seq<StatementNode>) -> bool
    decreases ss,
{
    ss.len() == 0 || (wf_stmts(ss.drop_last()) && wf_stmt(ss.last()))
}

pub open spec fn wf_stmt(s: StatementNode) -> bool
    decreases s,
{
    match s {
        StatementNode::Let(l) => l.name.kind is Ident && wf_expr(l.value),
        StatementNode::Assign(a) => a.name.kind is Ident && wf_expr(a.value),
        StatementNode::Expression(es) => wf_expr(es.expression),
    }
}

pub open spec fn wf_function(f: FunctionNode) -> bool {
    &&& f.name.kind is Ident
    &&& f.param_list.params@.len() <= 1
    &&& forall|i: int|
        0 <= i < f.param_list.params@.len() ==> (#[trigger] f.param_list.params@[i]).kind is Ident
    &&& wf_block(f.body)
}

/// A top-level item as the parser builds it: a function or a statement.
pub open spec fn wf_item(item: CstNode) -> bool {
    match item {
        CstNode::Function(f) => wf_function(*f),
        CstNode::Statement(s) => wf_stmt(*s),
        _ => false,
    }
}

pub open spec fn wf_items(items: Seq<CstNode>) -> bool {
    forall|i: int| 0 <= i < items.len() ==> wf_item(#[trigger] items[i])
}

/// A cursor over a token sequence.
pub struct Parser {
    tokens: Vec<TokenNode>,
    current: usize,
}

impl Parser {
    pub closed spec fn toks(&self) -> Seq<Token> {
        self.tokens@
    }

    pub closed spec fn pos(&self) -> int {
        self.current as int
    }

    pub open spec fn wf(&self) -> bool {
        0 <= self.pos() <= self.toks().len()
    }

    pub open spec fn remaining(&self) -> int {
        self.toks().len() - self.pos()
    }

    /// The token at the cursor, or `Eof` past the end.
    pub open spec fn peek_token(&self) -> Token {
        if self.pos() < self.toks().len() {
            self.toks()[self.pos()]
        } else {
            end_token()
        }
    }

    pub open spec fn at_end(&self) -> bool {
        self.pos() >= self.toks().len() || self.peek_token().kind is Eof
    }

    /// `next` is `self` moved forward over zero or more tokens, and over at
    /// least one where `progressed`.
    pub open spec fn moved_to(&self, next: &Self, progressed: bool) -> bool {
        &&& next.toks() == self.toks()
        &&& next.wf()
        &&& self.pos() <= next.pos()
        &&& progressed ==> self.pos() < next.pos()
    }

    pub fn new(tokens: Vec<TokenNode>) -> (r: Self)
        ensures
            r.wf(),
            r.toks() == tokens@,
            r.pos() == 0,
    {
        Self { tokens, current: 0 }
    }

    /// Parses the whole token sequence as a list of items.
    pub fn parse(self) -> (r: ParseResult<CstRoot>)
        requires
            self.wf(),
        ensures
            r is Ok ==> wf_items(r->Ok_0.items@),
    {
        let mut parser = self;
        parser.parse_items()
    }

    fn parse_items(&mut self) -> (r: ParseResult<CstRoot>)
        requires
            old(self).wf(),
        ensures
            r is Ok ==> wf_items(r->Ok_0.items@),
    {
        let mut items: Vec<CstNode> = Vec::new();
        let leading_trivia = self.consume_trivia();
        while !self.is_at_end()
            invariant
                self.wf(),
                wf_items(items@),
            decreases self.remaining(),
        {
            let item = match self.parse_item() {
                Ok(item) => item,
                Err(e) => {
                    return Err(e);
                },
            };
            items.push(item);
        }
        Ok(CstRoot { items, trivia: Trivia { leading: leading_trivia, trailing: Vec::new() } })
    }

    fn parse_item(&mut self) -> (r: ParseResult<CstNode>)
        requires
            old(self).wf(),
        ensures
            old(self).moved_to(final(self), r is Ok),
            r is Ok ==> wf_item(r->Ok_0),
        decreases old(self).remaining(), 30nat,
    {
        if self.check_kind(&TokenKind::Fn) {
            match self.parse_function() {
                Ok(f) => Ok(CstNode::Function(Box::new(f))),
                Err(e) => Err(e),
            }
        } else {
            match self.parse_statement() {
                Ok(s) => Ok(CstNode::Statement(Box::new(s))),
                Err(e) => Err(e),
            }
        }
    }

    fn parse_function(&mut self) -> (r: ParseResult<FunctionNode>)
        requires
            old(self).wf(),
        ensures
            old(self).moved_to(final(self), r is Ok),
            r is Ok ==> r->Ok_0.fn_token.kind is Fn && wf_function(r->Ok_0),
        decreases old(self).remaining(), 29nat,
    {
        let leading_trivia = self.consume_trivia();
        let fn_token = match self.expect_kind(&TokenKind::Fn) {
            Ok(x) => x,
            Err(e) => {
                return Err(e);
            },
        };
        let name = match self.expect_ident() {
            Ok(x) => x,
            Err(e) => {
                return Err(e);
            },
        };
        let param_list = match self.parse_param_list() {
            Ok(x) => x,
            Err(e) => {
                return Err(e);
            },
        };
        let body = match self.parse_block() {
            Ok(x) => x,
            Err(e) => {
                return Err(e);
            },
        };
        Ok(
            FunctionNode {
                fn_token,
                name,
                param_list,
                body,
                trivia: Trivia { leading: leading_trivia, trailing: self.consume_trivia() },
            },
        )
    }

    fn parse_param_list(&mut self) -> (r: ParseResult<ParamListNode>)
        requires
            old(self).wf(),
        ensures
            old(self).moved_to(final(self), r is Ok),
            r is Ok ==> r->Ok_0.params@.len() <= 1 && forall|i: int|
                0 <= i < r->Ok_0.params@.len() ==> (#[trigger] r->Ok_0.params@[i]).kind is Ident,
        decreases old(self).remaining(), 10nat,
    {
        let leading_trivia = self.consume_trivia();
        let open_paren = match self.expect_kind(&TokenKind::LeftParen) {
            Ok(x) => x,
            Err(e) => {
                return Err(e);
            },
        };
        let mut params: Vec<TokenNode> = Vec::new();
        if !self.check_kind(&TokenKind::RightParen) {
            let p = match self.expect_ident() {
                Ok(x) => x,
                Err(e) => {
                    return Err(e);
                },
            };
            params.push(p);
        }
        let close_paren = match self.expect_kind(&TokenKind::RightParen) {
            Ok(x) => x,
            Err(e) => {
                return Err(e);
            },
        };
        Ok(
            ParamListNode {
                open_paren,
                params,
                close_paren,
                trivia: Trivia { leading: leading_trivia, trailing: self.consume_trivia() },
            },
        )
    }

    fn parse_block(&mut self) -> (r: ParseResult<BlockNode>)
        requires
            old(self).wf(),
        ensures
            old(self).moved_to(final(self), r is Ok),
            r is Ok ==> wf_block(r->Ok_0),
        decreases old(self).remaining(), 11nat,
    {
        let leading_trivia = self.consume_trivia();
        let open_brace = match self.expect_kind(&TokenKind::LeftBrace) {
            Ok(x) => x,
            Err(e) => {
                return Err(e);
            },
        };
        let ghost entered = self.pos();
        let mut statements: Vec<StatementNode> = Vec::new();
        let mut final_expr: Option<ExpressionNode> = None;
        while !self.check_kind(&TokenKind::RightBrace) && !self.is_at_end()
            invariant
                old(self).moved_to(self, true),
                entered <= self.pos(),
                old(self).pos() < entered,
                wf_stmts(statements@),
                final_expr matches Some(e) ==> wf_expr(e),
            decreases self.remaining(),
        {
            if self.is_statement_start() {
                let s = match self.parse_statement() {
                    Ok(x) => x,
                    Err(e) => {
                        return Err(e);
                    },
                };
                let ghost before = statements@;
                let ghost pushed = s;
                statements.push(s);
                assert(statements@.drop_last() =~= before);
                assert(statements@.last() == pushed);
                assert(wf_stmts(statements@));
            } else {
                let expr = match self.parse_expression() {
                    Ok(x) => x,
                    Err(e) => {
                        return Err(e);
                    },
                };
                if self.check_kind(&TokenKind::Semicolon) {
                    let semicolon = self.advance();
                    let st = StatementNode::Expression(
                        ExpressionStatementNode {
                            expression: expr,
                            semicolon,
                            trivia: Trivia { leading: Vec::new(), trailing: self.consume_trivia() },
                        },
                    );
                    let ghost before = statements@;
                    let ghost pushed = st;
                    statements.push(st);
                    assert(statements@.drop_last() =~= before);
                    assert(statements@.last() == pushed);
                    assert(wf_stmt(pushed));
                    assert(wf_stmts(statements@));
                } else {
                    final_expr = Some(expr);
                    break;
                }
            }
        }
        let close_brace = match self.expect_kind(&TokenKind::RightBrace) {
            Ok(x) => x,
            Err(e) => {
                return Err(e);
            },
        };
        Ok(
            BlockNode {
                open_brace,
                statements,
                final_expr,
                close_brace,
                trivia: Trivia { leading: leading_trivia, trailing: self.consume_trivia() },
            },
        )
    }

    /// Whether a `let` or an assignment starts at the cursor.
    fn is_statement_start(&self) -> (r: bool)
        requires
            self.wf(),
        ensures
            r == (self.peek_token().kind is Let || (self.peek_token().kind is Ident && self.pos()
                + 1 < self.toks().len() && self.toks()[self.pos() + 1].kind is Assign)),
    {
        match self.peek().kind {
            TokenKind::Let => true,
            TokenKind::Ident(_) => {
                if self.tokens.len() - self.current > 1 {
                    matches!(self.tokens[self.current + 1].kind, TokenKind::Assign)
                } else {
                    false
                }
            },
            _ => false,
        }
    }

    fn parse_statement(&mut self) -> (r: ParseResult<StatementNode>)
        requires
            old(self).wf(),
        ensures
            old(self).moved_to(final(self), r is Ok),
            r is Ok ==> wf_stmt(r->Ok_0),
        decreases old(self).remaining(), 25nat,
    {
        match self.peek().kind {
            TokenKind::Let => {
                let s = match self.parse_let_statement() {
                    Ok(x) => x,
                    Err(e) => {
                        return Err(e);
                    },
                };
                Ok(StatementNode::Let(s))
            },
            TokenKind::Ident(_) => {
                if self.tokens.len() - self.current > 1 {
                    if let TokenKind::Assign = &self.tokens[self.current + 1].kind {
                        let s = match self.parse_assign_statement() {
                            Ok(x) => x,
                            Err(e) => {
                                return Err(e);
                            },
                        };
                        Ok(StatementNode::Assign(s))
                    } else {
                        self.parse_expression_statement()
                    }
                } else {
                    Err(
                        ParseError {
                            message: String::from_str("Unexpected end of input"),
                            span: self.peek().span,
                        },
                    )
                }
            },
            _ => self.parse_expression_statement(),
        }
    }

    fn parse_expression_statement(&mut self) -> (r: ParseResult<StatementNode>)
        requires
            old(self).wf(),
        ensures
            old(self).moved_to(final(self), r is Ok),
            r is Ok ==> r->Ok_0 is Expression && wf_stmt(r->Ok_0),
        decreases old(self).remaining(), 24nat,
    {
        let expr = match self.parse_expression() {
            Ok(x) => x,
            Err(e) => {
                return Err(e);
            },
        };
        let semicolon = match self.expect_kind(&TokenKind::Semicolon) {
            Ok(x) => x,
            Err(e) => {
                return Err(e);
            },
        };
        Ok(
            StatementNode::Expression(
                ExpressionStatementNode {
                    expression: expr,
                    semicolon,
                    trivia: Trivia { leading: Vec::new(), trailing: self.consume_trivia() },
                },
            ),
        )
    }

    fn parse_let_statement(&mut self) -> (r: ParseResult<LetStatementNode>)
        requires
            old(self).wf(),
        ensures
            old(self).moved_to(final(self), r is Ok),
            r is Ok ==> r->Ok_0.name.kind is Ident && wf_expr(r->Ok_0.value),
        decreases old(self).remaining(), 23nat,
    {
        let leading_trivia = self.consume_trivia();
        let let_token = match self.expect_kind(&TokenKind::Let) {
            Ok(x) => x,
            Err(e) => {
                return Err(e);
            },
        };
        let name = match self.expect_ident() {
            Ok(x) => x,
            Err(e) => {
                return Err(e);
            },
        };
        let equals = match self.expect_kind(&TokenKind::Assign) {
            Ok(x) => x,
            Err(e) => {
                return Err(e);
            },
        };
        let value = match self.parse_expression() {
            Ok(x) => x,
            Err(e) => {
                return Err(e);
            },
        };
        let semicolon = match self.expect_kind(&TokenKind::Semicolon) {
            Ok(x) => x,
            Err(e) => {
                return Err(e);
            },
        };
        Ok(
            LetStatementNode {
                let_token,
                name,
                equals,
                value,
                semicolon,
                trivia: Trivia { leading: leading_trivia, trailing: self.consume_trivia() },
            },
        )
    }

    fn parse_assign_statement(&mut self) -> (r: ParseResult<AssignStatementNode>)
        requires
            old(self).wf(),
        ensures
            old(self).moved_to(final(self), r is Ok),
            r is Ok ==> r->Ok_0.name.kind is Ident && wf_expr(r->Ok_0.value),
        decreases old(self).remaining(), 23nat,
    {
        let leading_trivia = self.consume_trivia();
        let name = match self.expect_ident() {
            Ok(x) => x,
            Err(e) => {
                return Err(e);
            },
        };
        let equals = match self.expect_kind(&TokenKind::Assign) {
            Ok(x) => x,
            Err(e) => {
                return Err(e);
            },
        };
        let value = match self.parse_expression() {
            Ok(x) => x,
            Err(e) => {
                return Err(e);
            },
        };
        let semicolon = match self.expect_kind(&TokenKind::Semicolon) {
            Ok(x) => x,
            Err(e) => {
                return Err(e);
            },
        };
        Ok(
            AssignStatementNode {
                name,
                equals,
                value,
                semicolon,
                trivia: Trivia { leading: leading_trivia, trailing: self.consume_trivia() },
            },
        )
    }

    fn parse_if_statement(&mut self) -> (r: ParseResult<IfStatementNode>)
        requires
            old(self).wf(),
        ensures
            old(self).moved_to(final(self), r is Ok),
            r is Ok ==> wf_if(r->Ok_0),
        decreases old(self).remaining(), 14nat,
    {
        let leading_trivia = self.consume_trivia();
        let if_token = match self.expect_kind(&TokenKind::If) {
            Ok(x) => x,
            Err(e) => {
                return Err(e);
            },
        };
        let condition = match self.parse_expression() {
            Ok(x) => x,
            Err(e) => {
                return Err(e);
            },
        };
        let then_block = match self.parse_block() {
            Ok(x) => x,
            Err(e) => {
                return Err(e);
            },
        };
        let else_clause = if self.check_kind(&TokenKind::Else) {
            let c = match self.parse_else_clause() {
                Ok(x) => x,
                Err(e) => {
                    return Err(e);
                },
            };
            Some(c)
        } else {
            None
        };
        Ok(
            IfStatementNode {
                if_token,
                condition,
                then_block,
                else_clause,
                trivia: Trivia { leading: leading_trivia, trailing: self.consume_trivia() },
            },
        )
    }

    fn parse_else_clause(&mut self) -> (r: ParseResult<ElseClauseNode>)
        requires
            old(self).wf(),
        ensures
            old(self).moved_to(final(self), r is Ok),
            r is Ok ==> match r->Ok_0.body {
                ElseBodyNode::Block(b) => wf_block(*b),
                ElseBodyNode::If(n) => wf_if(*n),
            },
        decreases old(self).remaining(), 12nat,
    {
        let leading_trivia = self.consume_trivia();
        let else_token = match self.expect_kind(&TokenKind::Else) {
            Ok(x) => x,
            Err(e) => {
                return Err(e);
            },
        };
        let body = if self.check_kind(&TokenKind::If) {
            let i = match self.parse_if_statement() {
                Ok(x) => x,
                Err(e) => {
                    return Err(e);
                },
            };
            ElseBodyNode::If(Box::new(i))
        } else {
            let b = match self.parse_block() {
                Ok(x) => x,
                Err(e) => {
                    return Err(e);
                },
            };
            ElseBodyNode::Block(Box::new(b))
        };
        Ok(
            ElseClauseNode {
                else_token,
                body,
                trivia: Trivia { leading: leading_trivia, trailing: self.consume_trivia() },
            },
        )
    }

    fn parse_while_statement(&mut self) -> (r: ParseResult<WhileStatementNode>)
        requires
            old(self).wf(),
        ensures
            old(self).moved_to(final(self), r is Ok),
            r is Ok ==> wf_expr(r->Ok_0.condition) && wf_block(r->Ok_0.body),
        decreases old(self).remaining(), 13nat,
    {
        let leading_trivia = self.consume_trivia();
        let while_token = match self.expect_kind(&TokenKind::While) {
            Ok(x) => x,
            Err(e) => {
                return Err(e);
            },
        };
        let condition = match self.parse_expression() {
            Ok(x) => x,
            Err(e) => {
                return Err(e);
            },
        };
        let body = match self.parse_block() {
            Ok(x) => x,
            Err(e) => {
                return Err(e);
            },
        };
        Ok(
            WhileStatementNode {
                while_token,
                condition,
                body,
                trivia: Trivia { leading: leading_trivia, trailing: self.consume_trivia() },
            },
        )
    }

    fn parse_expression(&mut self) -> (r: ParseResult<ExpressionNode>)
        requires
            old(self).wf(),
        ensures
            old(self).moved_to(final(self), r is Ok),
            r is Ok ==> wf_expr(r->Ok_0),
        decreases old(self).remaining(), 20nat,
    {
        self.parse_comparison()
    }

    fn is_comparison_operator(&self) -> (r: bool)
        requires
            self.wf(),
        ensures
            r == (self.peek_token().kind is LessEqual || self.peek_token().kind is Less
                || self.peek_token().kind is Greater || self.peek_token().kind is GreaterEqual
                || self.peek_token().kind is Equal || self.peek_token().kind is NotEqual),
    {
        self.check_kind(&TokenKind::LessEqual) || self.check_kind(&TokenKind::Less)
            || self.check_kind(&TokenKind::Greater) || self.check_kind(&TokenKind::GreaterEqual)
            || self.check_kind(&TokenKind::Equal) || self.check_kind(&TokenKind::NotEqual)
    }

    fn parse_comparison(&mut self) -> (r: ParseResult<ExpressionNode>)
        requires
            old(self).wf(),
        ensures
            old(self).moved_to(final(self), r is Ok),
            r is Ok ==> wf_expr(r->Ok_0),
        decreases old(self).remaining(), 19nat,
    {
        let mut expr = match self.parse_addition() {
            Ok(x) => x,
            Err(e) => {
                return Err(e);
            },
        };
        while self.is_comparison_operator()
            invariant
                old(self).moved_to(self, true),
                wf_expr(expr),
            decreases self.remaining(),
        {
            let leading_trivia = self.consume_trivia();
            let operator = self.advance();
            let right = match self.parse_addition() {
                Ok(x) => x,
                Err(e) => {
                    return Err(e);
                },
            };
            expr =
            ExpressionNode::Binary(
                BinaryExprNode {
                    left: Box::new(expr),
                    operator,
                    right: Box::new(right),
                    trivia: Trivia { leading: leading_trivia, trailing: self.consume_trivia() },
                },
            );
        }
        Ok(expr)
    }

    fn parse_addition(&mut self) -> (r: ParseResult<ExpressionNode>)
        requires
            old(self).wf(),
        ensures
            old(self).moved_to(final(self), r is Ok),
            r is Ok ==> wf_expr(r->Ok_0),
        decreases old(self).remaining(), 18nat,
    {
        let mut expr = match self.parse_multiplication() {
            Ok(x) => x,
            Err(e) => {
                return Err(e);
            },
        };
        while self.check_kind(&TokenKind::Plus) || self.check_kind(&TokenKind::Minus)
            invariant
                old(self).moved_to(self, true),
                wf_expr(expr),
            decreases self.remaining(),
        {
            let leading_trivia = self.consume_trivia();
            let operator = self.advance();
            let right = match self.parse_multiplication() {
                Ok(x) => x,
                Err(e) => {
                    return Err(e);
                },
            };
            expr =
            ExpressionNode::Binary(
                BinaryExprNode {
                    left: Box::new(expr),
                    operator,
                    right: Box::new(right),
                    trivia: Trivia { leading: leading_trivia, trailing: self.consume_trivia() },
                },
            );
        }
        Ok(expr)
    }

    fn parse_multiplication(&mut self) -> (r: ParseResult<ExpressionNode>)
        requires
            old(self).wf(),
        ensures
            old(self).moved_to(final(self), r is Ok),
            r is Ok ==> wf_expr(r->Ok_0),
        decreases old(self).remaining(), 17nat,
    {
        let mut expr = match self.parse_call() {
            Ok(x) => x,
            Err(e) => {
                return Err(e);
            },
        };
        while self.check_kind(&TokenKind::Star) || self.check_kind(&TokenKind::Slash)
            || self.check_kind(&TokenKind::Percent)
            invariant
                old(self).moved_to(self, true),
                wf_expr(expr),
            decreases self.remaining(),
        {
            let leading_trivia = self.consume_trivia();
            let operator = self.advance();
            let right = match self.parse_call() {
                Ok(x) => x,
                Err(e) => {
                    return Err(e);
                },
            };
            expr =
            ExpressionNode::Binary(
                BinaryExprNode {
                    left: Box::new(expr),
                    operator,
                    right: Box::new(right),
                    trivia: Trivia { leading: leading_trivia, trailing: self.consume_trivia() },
                },
            );
        }
        Ok(expr)
    }

    fn parse_call(&mut self) -> (r: ParseResult<ExpressionNode>)
        requires
            old(self).wf(),
        ensures
            old(self).moved_to(final(self), r is Ok),
            r is Ok ==> wf_expr(r->Ok_0),
        decreases old(self).remaining(), 16nat,
    {
        let mut expr = match self.parse_primary() {
            Ok(x) => x,
            Err(e) => {
                return Err(e);
            },
        };
        while self.check_kind(&TokenKind::LeftParen)
            invariant
                old(self).moved_to(self, true),
                wf_expr(expr),
            decreases self.remaining(),
        {
            let leading_trivia = self.consume_trivia();
            let open_paren = self.advance();
            let mut args: Vec<ExpressionNode> = Vec::new();
            assert(args@ =~= Seq::<ExpressionNode>::empty());
            if !self.check_kind(&TokenKind::RightParen) {
                let a = match self.parse_expression() {
                    Ok(x) => x,
                    Err(e) => {
                        return Err(e);
                    },
                };
                args.push(a);
                assert(args@.drop_last() =~= Seq::<ExpressionNode>::empty());
                assert(wf_exprs(args@.drop_last()));
                assert(args@.last() == a);
            }
            assert(wf_exprs(args@));
            let close_paren = match self.expect_kind(&TokenKind::RightParen) {
                Ok(x) => x,
                Err(e) => {
                    return Err(e);
                },
            };
            expr =
            ExpressionNode::Call(
                CallExprNode {
                    function: Box::new(expr),
                    open_paren,
                    args,
                    close_paren,
                    trivia: Trivia { leading: leading_trivia, trailing: self.consume_trivia() },
                },
            );
        }
        Ok(expr)
    }

    fn parse_primary(&mut self) -> (r: ParseResult<ExpressionNode>)
        requires
            old(self).wf(),
        ensures
            old(self).moved_to(final(self), r is Ok),
            r is Ok ==> wf_expr(r->Ok_0),
            r is Err ==> r->Err_0.span == old(self).peek_token().span || !(old(self).peek_token().kind is Integer
                || old(self).peek_token().kind is Ident),
        decreases old(self).remaining(), 15nat,
    {
        let t = self.peek();
        match &t.kind {
            TokenKind::Integer(_) => Ok(ExpressionNode::Literal(self.advance())),
            TokenKind::Ident(_) => Ok(ExpressionNode::Identifier(self.advance())),
            TokenKind::If => {
                let i = match self.parse_if_statement() {
                    Ok(x) => x,
                    Err(e) => {
                        return Err(e);
                    },
                };
                Ok(ExpressionNode::If(Box::new(i)))
            },
            TokenKind::While => {
                let w = match self.parse_while_statement() {
                    Ok(x) => x,
                    Err(e) => {
                        return Err(e);
                    },
                };
                Ok(ExpressionNode::While(Box::new(w)))
            },
            TokenKind::LeftParen => {
                self.advance();
                let expr = match self.parse_expression() {
                    Ok(x) => x,
                    Err(e) => {
                        return Err(e);
                    },
                };
                match self.expect_kind(&TokenKind::RightParen) {
                    Ok(_) => {},
                    Err(e) => {
                        return Err(e);
                    },
                }
                Ok(expr)
            },
            _ => Err(
                ParseError {
                    message: join("Unexpected token: ", t.kind.name()),
                    span: t.span,
                },
            ),
        }
    }

    /// The token at the cursor, or `Eof` past the end.
    fn peek(&self) -> (r: TokenNode)
        requires
            self.wf(),
        ensures
            r == self.peek_token(),
    {
        if self.current < self.tokens.len() {
            self.tokens[self.current].duplicate()
        } else {
            Token { kind: TokenKind::Eof, span: Span { start: 0, end: 0 } }
        }
    }

    /// Takes the token at the cursor, which is not `Eof`.
    fn advance(&mut self) -> (r: TokenNode)
        requires
            old(self).wf(),
            !old(self).at_end(),
        ensures
            old(self).moved_to(final(self), true),
            final(self).pos() == old(self).pos() + 1,
            r == old(self).peek_token(),
    {
        let n = self.tokens.len();
        let t = self.tokens[self.current].duplicate();
        self.current = self.current + 1;
        t
    }

    /// Whether the token at the cursor is of the same variant as `kind`.
    fn check_kind(&self, kind: &TokenKind) -> (r: bool)
        requires
            self.wf(),
        ensures
            r == self.peek_token().kind.same_variant(kind),
    {
        self.peek().kind.tag() == kind.tag()
    }

    /// Takes a token of the same variant as `kind`, or fails at the cursor.
    fn expect_kind(&mut self, kind: &TokenKind) -> (r: ParseResult<TokenNode>)
        requires
            old(self).wf(),
            !(kind is Eof),
        ensures
            old(self).moved_to(final(self), r is Ok),
            r is Ok ==> r->Ok_0 == old(self).peek_token() && r->Ok_0.kind.same_variant(kind)
                && final(self).pos() == old(self).pos() + 1,
            r is Err ==> r->Err_0.span == old(self).peek_token().span && final(self).pos()
                == old(self).pos(),
    {
        if self.check_kind(kind) {
            Ok(self.advance())
        } else {
            let found = self.peek();
            let m = join("Expected ", kind.name()).concat(", found ").concat(found.kind.name());
            Err(ParseError { message: m, span: found.span })
        }
    }

    /// Takes an identifier token, or fails at the cursor.
    fn expect_ident(&mut self) -> (r: ParseResult<TokenNode>)
        requires
            old(self).wf(),
        ensures
            old(self).moved_to(final(self), r is Ok),
            r is Ok ==> r->Ok_0 == old(self).peek_token() && r->Ok_0.kind is Ident
                && final(self).pos() == old(self).pos() + 1,
            r is Err ==> r->Err_0.span == old(self).peek_token().span && final(self).pos()
                == old(self).pos(),
    {
        let t = self.peek();
        match &t.kind {
            TokenKind::Ident(_) => Ok(self.advance()),
            _ => {
                let m = join("Expected identifier, found ", t.kind.name());
                Err(ParseError { message: m, span: t.span })
            },
        }
    }

    fn is_at_end(&self) -> (r: bool)
        requires
            self.wf(),
        ensures
            r == self.at_end(),
    {
        self.current >= self.tokens.len() || matches!(self.peek().kind, TokenKind::Eof)
    }

    /// Trivia before the cursor; the lexer keeps none, so there is none.
    fn consume_trivia(&mut self) -> (r: Vec<TokenNode>)
        ensures
            r@.len() == 0,
            final(self).toks() == old(self).toks(),
            final(self).pos() == old(self).pos(),
    {
        Vec::new()
    }
}

/// Parses a token sequence into a syntax tree.
pub fn parse(tokens: Vec<TokenNode>) -> (r: ParseResult<CstRoot>)
    ensures
        r is Ok ==> wf_items(r->Ok_0.items@),
{
    Parser::new(tokens).parse()
}

} // verus!

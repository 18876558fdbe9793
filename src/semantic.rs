//! Name and arity checking of a parsed program, producing the scope table of
//! function signatures that code generation consumes.
use crate::ast::{
    BlockNode, CstNode, CstRoot, ElseBodyNode, ExpressionNode, FunctionNode, IfStatementNode,
    StatementNode,
};
use crate::lexer::{Span, TokenKind};
use crate::text::{decimal, decimal_string, join};
use vstd::prelude::*;
use vstd::string::StringExecFns;

verus! {

broadcast use vstd::std_specs::vec::group_vec_axioms, vstd::seq::group_seq_axioms;

/// A name or arity error, with the span of the offending token.
#[derive(Debug, Clone, PartialEq)]
pub struct SemanticError {
    pub message: String,
    pub span: Span,
}

/// Types of the language: every value is a 64-bit integer.
#[derive(Debug, Clone, Copy, PartialEq, Eq, Structural)]
pub enum RueType {
    I64,
    Unknown,
}

/// What is known of a function: how many parameters it takes and its type.
#[derive(Debug, Clone, Copy, PartialEq, Eq, Structural)]
pub struct FunctionSignature {
    pub param_count: usize,
    pub return_type: RueType,
}

/// Names in scope: variables and function signatures. A later entry for a
/// name hides an earlier one.
#[derive(Debug, Clone, PartialEq)]
pub struct Scope {
    pub variables: Vec<(String, RueType)>,
    pub functions: Vec<(String, FunctionSignature)>,
}

/// The names of a scope: variables, and functions with their signatures.
pub struct ScopeView {
    pub vars: Seq<Seq<char>>,
    pub funcs: Seq<(Seq<char>, FunctionSignature)>,
}

pub open spec fn has_name(vars: Seq<Seq<char>>, name: Seq<char>) -> bool {
    exists|i: int| 0 <= i < vars.len() && vars[i] == name
}

/// The signature recorded last for `name`.
pub open spec fn lookup_signature(funcs: Seq<(Seq<char>, FunctionSignature)>, name: Seq<char>) -> Option<
    FunctionSignature,
>
    decreases funcs.len(),
{
    if funcs.len() == 0 {
        None
    } else if funcs.last().0 == name {
        Some(funcs.last().1)
    } else {
        lookup_signature(funcs.drop_last(), name)
    }
}

pub type CheckResult = Result<ScopeView, (Seq<char>, Span)>;

pub open spec fn with_var(sv: ScopeView, name: Seq<char>) -> ScopeView {
    ScopeView { vars: sv.vars.push(name), funcs: sv.funcs }
}

pub open spec fn arity_message(name: Seq<char>, expected: usize, got: nat) -> Seq<char> {
    "Function '"@ + name + "' expects "@ + decimal(expected as nat) + " arguments, got "@
        + decimal(got)
}

/// Checks an expression; the scope changes only through `let` statements in
/// nested blocks.
pub open spec fn check_expr(e: ExpressionNode, sv: ScopeView) -> CheckResult
    decreases e,
{
    match e {
        ExpressionNode::Literal(_) => Ok(sv),
        ExpressionNode::Identifier(t) => match t.kind {
            TokenKind::Ident(name) => if has_name(sv.vars, name@) {
                Ok(sv)
            } else {
                Err(("Undefined variable: "@ + name@, t.span))
            },
            _ => Err(("Expected identifier"@, t.span)),
        },
        ExpressionNode::Binary(b) => match check_expr(*b.left, sv) {
            Err(x) => Err(x),
            Ok(s1) => check_expr(*b.right, s1),
        },
        ExpressionNode::Call(c) => match *c.function {
            ExpressionNode::Identifier(ft) => match ft.kind {
                TokenKind::Ident(name) => match lookup_signature(sv.funcs, name@) {
                    None => Err(("Undefined function: "@ + name@, ft.span)),
                    Some(sig) => if c.args@.len() != sig.param_count {
                        Err((arity_message(name@, sig.param_count, c.args@.len()), c.open_paren.span))
                    } else {
                        check_exprs(c.args@, sv)
                    },
                },
                _ => Err(("Expected function name"@, ft.span)),
            },
            _ => Err(("Function calls must use identifiers"@, c.open_paren.span)),
        },
        ExpressionNode::If(i) => check_if(*i, sv),
        ExpressionNode::While(w) => match check_expr(w.condition, sv) {
            Err(x) => Err(x),
            Ok(s1) => check_block(w.body, s1),
        },
    }
}

pub open spec fn check_exprs(es: Seq<ExpressionNode>, sv: ScopeView) -> CheckResult
    decreases es,
{
    if es.len() == 0 {
        Ok(sv)
    } else {
        match check_exprs(es.drop_last(), sv) {
            Err(x) => Err(x),
            Ok(s1) => check_expr(es.last(), s1),
        }
    }
}

pub open spec fn check_if(i: IfStatementNode, sv: ScopeView) -> CheckResult
    decreases i,
{
    match check_expr(i.condition, sv) {
        Err(x) => Err(x),
        Ok(s1) => match check_block(i.then_block, s1) {
            Err(x) => Err(x),
            Ok(s2) => match i.else_clause {
                None => Ok(s2),
                Some(c) => match c.body {
                    ElseBodyNode::Block(b) => check_block(*b, s2),
                    ElseBodyNode::If(n) => check_if(*n, s2),
                },
            },
        },
    }
}

pub open spec fn check_block(b: BlockNode, sv: ScopeView) -> CheckResult
    decreases b,
{
    match check_stmts(b.statements@, sv) {
        Err(x) => Err(x),
        Ok(s1) => match b.final_expr {
            Some(e) => check_expr(e, s1),
            None => Ok(s1),
        },
    }
}

pub open spec fn check_stmts(ss: Seq<StatementNode>, sv: ScopeView) -> CheckResult
    decreases ss,
{
    if ss.len() == 0 {
        Ok(sv)
    } else {
        match check_stmts(ss.drop_last(), sv) {
            Err(x) => Err(x),
            Ok(s1) => check_stmt(ss.last(), s1),
        }
    }
}

pub open spec fn check_stmt(s: StatementNode, sv: ScopeView) -> CheckResult
    decreases s,
{
    match s {
        StatementNode::Let(l) => match check_expr(l.value, sv) {
            Err(x) => Err(x),
            Ok(s1) => match l.name.kind {
                TokenKind::Ident(n) => Ok(with_var(s1, n@)),
                _ => Ok(s1),
            },
        },
        StatementNode::Assign(a) => match check_expr(a.value, sv) {
            Err(x) => Err(x),
            Ok(s1) => match a.name.kind {
                TokenKind::Ident(n) => if has_name(s1.vars, n@) {
                    Ok(s1)
                } else {
                    Err(("Cannot assign to undefined variable: "@ + n@, a.name.span))
                },
                _ => Ok(s1),
            },
        },
        StatementNode::Expression(es) => check_expr(es.expression, sv),
    }
}

/// Registers a function and checks its body in a scope that holds the
/// functions known so far and the function's parameter, but no variable of
/// the enclosing scope; only the registration is kept.
pub open spec fn check_function(f: FunctionNode, sv: ScopeView) -> CheckResult {
    match f.name.kind {
        TokenKind::Ident(name) => if f.param_list.params@.len() > 1 {
            Err(("Functions can only have at most one parameter"@, f.param_list.open_paren.span))
        } else {
            let s1 = ScopeView {
                vars: sv.vars,
                funcs: sv.funcs.push(
                    (
                        name@,
                        FunctionSignature {
                            param_count: f.param_list.params@.len() as usize,
                            return_type: RueType::I64,
                        },
                    ),
                ),
            };
            let body_scope = ScopeView { vars: seq![], funcs: s1.funcs };
            let local = if f.param_list.params@.len() == 1 && f.param_list.params@[0].kind is Ident {
                with_var(body_scope, f.param_list.params@[0].kind->Ident_0@)
            } else {
                body_scope
            };
            match check_block(f.body, local) {
                Err(x) => Err(x),
                Ok(_) => Ok(s1),
            }
        },
        _ => Err(("Expected function name"@, f.name.span)),
    }
}

pub open spec fn check_items(items: Seq<CstNode>, sv: ScopeView) -> CheckResult
    decreases items.len(),
{
    if items.len() == 0 {
        Ok(sv)
    } else {
        match check_items(items.drop_last(), sv) {
            Err(x) => Err(x),
            Ok(s1) => match items.last() {
                CstNode::Function(f) => check_function(*f, s1),
                CstNode::Statement(s) => check_stmt(*s, s1),
                _ => Ok(s1),
            },
        }
    }
}

pub open spec fn empty_scope() -> ScopeView {
    ScopeView { vars: seq![], funcs: seq![] }
}

pub open spec fn check_post(
    r: Result<(), SemanticError>,
    res: CheckResult,
    after: ScopeView,
) -> bool {
    match res {
        Ok(sv) => r is Ok && after == sv,
        Err((m, sp)) => r is Err && r->Err_0.message@ == m && r->Err_0.span == sp,
    }
}

pub open spec fn check_expr_post(
    r: Result<RueType, SemanticError>,
    res: CheckResult,
    after: ScopeView,
) -> bool {
    match res {
        Ok(sv) => r == Ok::<RueType, SemanticError>(RueType::I64) && after == sv,
        Err((m, sp)) => r is Err && r->Err_0.message@ == m && r->Err_0.span == sp,
    }
}

pub proof fn lemma_check_stmts_error_extends(ss: Seq<StatementNode>, sv: ScopeView, i: int)
    requires
        0 <= i <= ss.len(),
        check_stmts(ss.subrange(0, i), sv) is Err,
    ensures
        check_stmts(ss, sv) == check_stmts(ss.subrange(0, i), sv),
    decreases ss.len(),
{
    if i < ss.len() {
        assert(ss.drop_last().subrange(0, i) =~= ss.subrange(0, i));
        lemma_check_stmts_error_extends(ss.drop_last(), sv, i);
    } else {
        assert(ss.subrange(0, i) =~= ss);
    }
}

pub proof fn lemma_check_exprs_error_extends(es: Seq<ExpressionNode>, sv: ScopeView, i: int)
    requires
        0 <= i <= es.len(),
        check_exprs(es.subrange(0, i), sv) is Err,
    ensures
        check_exprs(es, sv) == check_exprs(es.subrange(0, i), sv),
    decreases es.len(),
{
    if i < es.len() {
        assert(es.drop_last().subrange(0, i) =~= es.subrange(0, i));
        lemma_check_exprs_error_extends(es.drop_last(), sv, i);
    } else {
        assert(es.subrange(0, i) =~= es);
    }
}

pub proof fn lemma_check_items_error_extends(items: Seq<CstNode>, sv: ScopeView, i: int)
    requires
        0 <= i <= items.len(),
        check_items(items.subrange(0, i), sv) is Err,
    ensures
        check_items(items, sv) == check_items(items.subrange(0, i), sv),
    decreases items.len(),
{
    if i < items.len() {
        assert(items.drop_last().subrange(0, i) =~= items.subrange(0, i));
        lemma_check_items_error_extends(items.drop_last(), sv, i);
    } else {
        assert(items.subrange(0, i) =~= items);
    }
}

impl Scope {
    /// The names in this scope.
    pub open spec fn view(&self) -> ScopeView {
        ScopeView {
            vars: self.variables@.map_values(|e: (String, RueType)| e.0@),
            funcs: self.functions@.map_values(|e: (String, FunctionSignature)| (e.0@, e.1)),
        }
    }

    pub fn new() -> (r: Scope)
        ensures
            r.view() == empty_scope(),
    {
        let r = Scope { variables: Vec::new(), functions: Vec::new() };
        assert(r.view().vars =~= empty_scope().vars);
        assert(r.view().funcs =~= empty_scope().funcs);
        r
    }

    /// Whether a variable of this name is in scope.
    pub fn has_variable(&self, name: &String) -> (r: bool)
        ensures
            r == has_name(self.view().vars, name@),
    {
        let ghost vars = self.view().vars;
        let mut i: usize = 0;
        while i < self.variables.len()
            invariant
                i <= self.variables@.len(),
                vars == self.view().vars,
                forall|k: int| 0 <= k < i ==> vars[k] != name@,
            decreases self.variables@.len() - i,
        {
            if self.variables[i].0 == *name {
                assert(vars[i as int] == name@);
                return true;
            }
            i = i + 1;
        }
        false
    }

    /// The signature recorded last for `name`.
    pub fn lookup_function(&self, name: &String) -> (r: Option<FunctionSignature>)
        ensures
            r == lookup_signature(self.view().funcs, name@),
    {
        let ghost fs = self.view().funcs;
        let mut i: usize = self.functions.len();
        assert(fs.subrange(0, i as int) =~= fs);
        while i > 0
            invariant
                i <= fs.len(),
                fs == self.view().funcs,
                lookup_signature(fs, name@) == lookup_signature(fs.subrange(0, i as int), name@),
            decreases i,
        {
            let ghost pre = fs.subrange(0, i as int);
            assert(pre.drop_last() =~= fs.subrange(0, i - 1));
            assert(pre.last() == fs[i - 1]);
            if self.functions[i - 1].0 == *name {
                return Some(self.functions[i - 1].1);
            }
            i = i - 1;
        }
        None
    }

    /// Whether a function of this name is in scope.
    pub fn has_function(&self, name: &str) -> (r: bool)
        ensures
            r == (lookup_signature(self.view().funcs, name@) is Some),
    {
        self.lookup_function(&String::from_str(name)).is_some()
    }

    /// The signature of the function of this name.
    pub fn function(&self, name: &str) -> (r: Option<FunctionSignature>)
        ensures
            r == lookup_signature(self.view().funcs, name@),
    {
        self.lookup_function(&String::from_str(name))
    }

    fn add_variable(&mut self, name: String)
        ensures
            final(self).view() == with_var(old(self).view(), name@),
    {
        let ghost n = name@;
        self.variables.push((name, RueType::I64));
        assert(self.view().vars =~= old(self).view().vars.push(n));
        assert(self.view().funcs =~= old(self).view().funcs);
    }

    fn add_function(&mut self, name: String, sig: FunctionSignature)
        ensures
            final(self).view() == (ScopeView {
                vars: old(self).view().vars,
                funcs: old(self).view().funcs.push((name@, sig)),
            }),
    {
        let ghost n = name@;
        self.functions.push((name, sig));
        assert(self.view().vars =~= old(self).view().vars);
        assert(self.view().funcs =~= old(self).view().funcs.push((n, sig)));
    }

    /// A scope with this scope's functions and no variables.
    pub fn functions_only(&self) -> (r: Scope)
        ensures
            r.view() == (ScopeView { vars: seq![], funcs: self.view().funcs }),
    {
        let mut r = Scope::new();
        let mut j: usize = 0;
        while j < self.functions.len()
            invariant
                j <= self.functions@.len(),
                r.view().vars == Seq::<Seq<char>>::empty(),
                r.view().funcs == self.view().funcs.subrange(0, j as int),
            decreases self.functions@.len() - j,
        {
            r.add_function(self.functions[j].0.clone(), self.functions[j].1);
            j = j + 1;
            assert(r.view().funcs =~= self.view().funcs.subrange(0, j as int));
        }
        assert(r.view().funcs =~= self.view().funcs);
        r
    }
}

/// Checks a program: registers each function and checks each body and each
/// top-level statement, in order.
pub fn analyze_cst(ast: &CstRoot) -> (r: Result<Scope, SemanticError>)
    ensures
        match check_items(ast.items@, empty_scope()) {
            Ok(sv) => r is Ok && r->Ok_0.view() == sv,
            Err((m, sp)) => r is Err && r->Err_0.message@ == m && r->Err_0.span == sp,
        },
{
    let mut scope = Scope::new();
    let ghost items = ast.items@;
    let mut i: usize = 0;
    assert(items.subrange(0, 0) =~= Seq::<CstNode>::empty());
    while i < ast.items.len()
        invariant
            i <= items.len(),
            items == ast.items@,
            check_items(items.subrange(0, i as int), empty_scope()) == Ok::<ScopeView, (Seq<char>, Span)>(scope.view()),
        decreases items.len() - i,
    {
        assert(items.subrange(0, i + 1).drop_last() =~= items.subrange(0, i as int));
        assert(items.subrange(0, i + 1).last() == items[i as int]);
        let res = match &ast.items[i] {
            CstNode::Function(func) => analyze_function(&mut scope, func),
            CstNode::Statement(stmt) => analyze_statement(&mut scope, stmt),
            _ => Ok(()),
        };
        match res {
            Ok(()) => {},
            Err(e) => {
                proof {
                    lemma_check_items_error_extends(items, empty_scope(), i + 1);
                }
                return Err(e);
            },
        }
        i = i + 1;
    }
    assert(items.subrange(0, items.len() as int) =~= items);
    Ok(scope)
}

fn analyze_function(scope: &mut Scope, func: &FunctionNode) -> (r: Result<(), SemanticError>)
    ensures
        check_post(r, check_function(*func, old(scope).view()), final(scope).view()),
{
    let func_name = match &func.name.kind {
        TokenKind::Ident(name) => name.clone(),
        _ => {
            return Err(
                SemanticError {
                    message: String::from_str("Expected function name"),
                    span: func.name.span,
                },
            );
        },
    };
    let param_count = func.param_list.params.len();
    if param_count > 1 {
        return Err(
            SemanticError {
                message: String::from_str("Functions can only have at most one parameter"),
                span: func.param_list.open_paren.span,
            },
        );
    }
    scope.add_function(func_name, FunctionSignature { param_count, return_type: RueType::I64 });
    let mut local_scope = scope.functions_only();
    if param_count == 1 {
        if let TokenKind::Ident(param_name) = &func.param_list.params[0].kind {
            local_scope.add_variable(param_name.clone());
        }
    }
    match analyze_block(&mut local_scope, &func.body) {
        Ok(_) => {},
        Err(e) => {
            return Err(e);
        },
    }
    Ok(())
}

fn analyze_block(scope: &mut Scope, block: &BlockNode) -> (r: Result<(), SemanticError>)
    ensures
        check_post(r, check_block(*block, old(scope).view()), final(scope).view()),
    decreases *block,
{
    match analyze_statements(scope, &block.statements) {
        Ok(_) => {},
        Err(e) => {
            return Err(e);
        },
    }
    if let Some(final_expr) = &block.final_expr {
        match analyze_expression(scope, final_expr) {
            Ok(_) => {},
            Err(e) => {
                return Err(e);
            },
        }
    }
    Ok(())
}

fn analyze_statements(scope: &mut Scope, stmts: &Vec<StatementNode>) -> (r: Result<(), SemanticError>)
    ensures
        check_post(r, check_stmts(stmts@, old(scope).view()), final(scope).view()),
    decreases stmts,
{
    let mut i: usize = 0;
    assert(stmts@.subrange(0, 0) =~= Seq::<StatementNode>::empty());
    while i < stmts.len()
        invariant
            i <= stmts.len(),
            check_stmts(stmts@.subrange(0, i as int), old(scope).view()) == Ok::<ScopeView, (Seq<char>, Span)>(scope.view()),
        decreases stmts.len() - i,
    {
        assert(stmts@.subrange(0, i + 1).drop_last() =~= stmts@.subrange(0, i as int));
        assert(stmts@.subrange(0, i + 1).last() == stmts@[i as int]);
        match analyze_statement(scope, &stmts[i]) {
            Ok(()) => {},
            Err(e) => {
                proof {
                    lemma_check_stmts_error_extends(stmts@, old(scope).view(), i + 1);
                }
                return Err(e);
            },
        }
        i = i + 1;
    }
    assert(stmts@.subrange(0, stmts@.len() as int) =~= stmts@);
    Ok(())
}

fn analyze_args(scope: &mut Scope, args: &Vec<ExpressionNode>) -> (r: Result<(), SemanticError>)
    ensures
        check_post(r, check_exprs(args@, old(scope).view()), final(scope).view()),
    decreases args,
{
    let mut i: usize = 0;
    assert(args@.subrange(0, 0) =~= Seq::<ExpressionNode>::empty());
    while i < args.len()
        invariant
            i <= args.len(),
            check_exprs(args@.subrange(0, i as int), old(scope).view()) == Ok::<ScopeView, (Seq<char>, Span)>(scope.view()),
        decreases args.len() - i,
    {
        assert(args@.subrange(0, i + 1).drop_last() =~= args@.subrange(0, i as int));
        assert(args@.subrange(0, i + 1).last() == args@[i as int]);
        match analyze_expression(scope, &args[i]) {
            Ok(_) => {},
            Err(e) => {
                proof {
                    lemma_check_exprs_error_extends(args@, old(scope).view(), i + 1);
                }
                return Err(e);
            },
        }
        i = i + 1;
    }
    assert(args@.subrange(0, args@.len() as int) =~= args@);
    Ok(())
}

fn analyze_statement(scope: &mut Scope, stmt: &StatementNode) -> (r: Result<(), SemanticError>)
    ensures
        check_post(r, check_stmt(*stmt, old(scope).view()), final(scope).view()),
    decreases *stmt,
{
    match stmt {
        StatementNode::Let(let_stmt) => {
            match analyze_expression(scope, &let_stmt.value) {
                Ok(_) => {},
                Err(e) => {
                    return Err(e);
                },
            }
            if let TokenKind::Ident(var_name) = &let_stmt.name.kind {
                scope.add_variable(var_name.clone());
            }
        },
        StatementNode::Assign(assign_stmt) => {
            match analyze_expression(scope, &assign_stmt.value) {
                Ok(_) => {},
                Err(e) => {
                    return Err(e);
                },
            }
            if let TokenKind::Ident(var_name) = &assign_stmt.name.kind {
                if !scope.has_variable(var_name) {
                    return Err(
                        SemanticError {
                            message: join(
                                "Cannot assign to undefined variable: ",
                                var_name.as_str(),
                            ),
                            span: assign_stmt.name.span,
                        },
                    );
                }
            }
        },
        StatementNode::Expression(expr_stmt) => {
            match analyze_expression(scope, &expr_stmt.expression) {
                Ok(_) => {},
                Err(e) => {
                    return Err(e);
                },
            }
        },
    }
    Ok(())
}

impl Default for Scope {
    fn default() -> (r: Self)
        ensures
            r.view() == empty_scope(),
    {
        Scope::new()
    }
}

fn arity_error(name: &String, expected: usize, got: usize) -> (r: String)
    ensures
        r@ == arity_message(name@, expected, got as nat),
{
    let e = decimal_string(expected as u64);
    let g = decimal_string(got as u64);
    join("Function '", name.as_str()).concat("' expects ").concat(e.as_str()).concat(
        " arguments, got ",
    ).concat(g.as_str())
}

fn analyze_expression(scope: &mut Scope, expr: &ExpressionNode) -> (r: Result<RueType, SemanticError>)
    ensures
        check_expr_post(r, check_expr(*expr, old(scope).view()), final(scope).view()),
    decreases *expr,
{
    match expr {
        ExpressionNode::Literal(_) => Ok(RueType::I64),
        ExpressionNode::Identifier(token) => {
            if let TokenKind::Ident(name) = &token.kind {
                if scope.has_variable(name) {
                    Ok(RueType::I64)
                } else {
                    Err(
                        SemanticError {
                            message: join("Undefined variable: ", name.as_str()),
                            span: token.span,
                        },
                    )
                }
            } else {
                Err(SemanticError { message: String::from_str("Expected identifier"), span: token.span })
            }
        },
        ExpressionNode::Binary(binary_expr) => {
            match analyze_expression(scope, &binary_expr.left) {
                Ok(_) => {},
                Err(e) => {
                    return Err(e);
                },
            }
            match analyze_expression(scope, &binary_expr.right) {
                Ok(_) => {},
                Err(e) => {
                    return Err(e);
                },
            }
            Ok(RueType::I64)
        },
        ExpressionNode::Call(call_expr) => {
            if let ExpressionNode::Identifier(func_token) = &*call_expr.function {
                if let TokenKind::Ident(func_name) = &func_token.kind {
                    match scope.lookup_function(func_name) {
                        Some(signature) => {
                            if call_expr.args.len() != signature.param_count {
                                return Err(
                                    SemanticError {
                                        message: arity_error(
                                            func_name,
                                            signature.param_count,
                                            call_expr.args.len(),
                                        ),
                                        span: call_expr.open_paren.span,
                                    },
                                );
                            }
                            match analyze_args(scope, &call_expr.args) {
                                Ok(_) => {},
                                Err(e) => {
                                    return Err(e);
                                },
                            }
                            Ok(RueType::I64)
                        },
                        None => Err(
                            SemanticError {
                                message: join("Undefined function: ", func_name.as_str()),
                                span: func_token.span,
                            },
                        ),
                    }
                } else {
                    Err(
                        SemanticError {
                            message: String::from_str("Expected function name"),
                            span: func_token.span,
                        },
                    )
                }
            } else {
                Err(
                    SemanticError {
                        message: String::from_str("Function calls must use identifiers"),
                        span: call_expr.open_paren.span,
                    },
                )
            }
        },
        ExpressionNode::If(if_stmt) => analyze_if(scope, if_stmt),
        ExpressionNode::While(while_stmt) => {
            match analyze_expression(scope, &while_stmt.condition) {
                Ok(_) => {},
                Err(e) => {
                    return Err(e);
                },
            }
            match analyze_block(scope, &while_stmt.body) {
                Ok(_) => {},
                Err(e) => {
                    return Err(e);
                },
            }
            Ok(RueType::I64)
        },
    }
}

fn analyze_if(scope: &mut Scope, if_stmt: &IfStatementNode) -> (r: Result<RueType, SemanticError>)
    ensures
        check_expr_post(r, check_if(*if_stmt, old(scope).view()), final(scope).view()),
    decreases *if_stmt,
{
    match analyze_expression(scope, &if_stmt.condition) {
        Ok(_) => {},
        Err(e) => {
            return Err(e);
        },
    }
    match analyze_block(scope, &if_stmt.then_block) {
        Ok(_) => {},
        Err(e) => {
            return Err(e);
        },
    }
    if let Some(else_clause) = &if_stmt.else_clause {
        match &else_clause.body {
            ElseBodyNode::Block(block) => {
                match analyze_block(scope, block) {
                    Ok(_) => {},
                    Err(e) => {
                        return Err(e);
                    },
                }
            },
            ElseBodyNode::If(nested_if) => {
                match analyze_if(scope, nested_if) {
                    Ok(_) => {},
                    Err(e) => {
                        return Err(e);
                    },
                }
            },
        }
    }
    Ok(RueType::I64)
}

} // verus!

//! Lowering of checked code: a well-formed function that passes name
//! checking and uses only the operators the back end encodes lowers to code
//! that emission accepts, unless it runs out of registers or labels.
use crate::ast::{
    BlockNode, ElseBodyNode, ExpressionNode, FunctionNode, IfStatementNode, StatementNode,
    WhileStatementNode,
};
use crate::ir::{IrInstr, VReg, Value};
use crate::lexer::TokenKind;
use crate::lower::{
    LowerState, fresh_label, fresh_vreg, function_entry, function_param, lookup_binding,
    lower_args, lower_block_value, lower_else, lower_expr, lower_function, lower_if,
    lower_opt_expr, lower_stmt, lower_stmts, lower_while, lower_zero, too_many_labels_message,
    too_many_vregs_message,
};
use crate::parser::{wf_block, wf_expr, wf_exprs, wf_function, wf_if, wf_stmt, wf_stmts};
use crate::semantic::{
    FunctionSignature, ScopeView, check_block, check_expr, check_exprs, check_function, check_if,
    check_stmt, check_stmts, has_name, lookup_signature,
};
use vstd::prelude::*;

verus! {

broadcast use vstd::std_specs::vec::group_vec_axioms, vstd::seq::group_seq_axioms;

/// The binary operators that the back end encodes.
pub open spec fn supported_operator(k: TokenKind) -> bool {
    k is Plus || k is Minus || k is Star || k is LessEqual || k is Greater
}

pub open spec fn ops_expr(e: ExpressionNode) -> bool
    decreases e,
{
    match e {
        ExpressionNode::Binary(b) => supported_operator(b.operator.kind) && ops_expr(*b.left)
            && ops_expr(*b.right),
        ExpressionNode::Call(c) => ops_expr(*c.function) && ops_exprs(c.args@),
        ExpressionNode::If(i) => ops_if(*i),
        ExpressionNode::While(w) => ops_expr(w.condition) && ops_block(w.body),
        _ => true,
    }
}

pub open spec fn ops_exprs(es: Seq<ExpressionNode>) -> bool
    decreases es,
{
    es.len() == 0 || (ops_exprs(es.drop_last()) && ops_expr(es.last()))
}

pub open spec fn ops_if(i: IfStatementNode) -> bool
    decreases i,
{
    ops_expr(i.condition) && ops_block(i.then_block) && match i.else_clause {
        None => true,
        Some(c) => match c.body {
            ElseBodyNode::Block(b) => ops_block(*b),
            ElseBodyNode::If(n) => ops_if(*n),
        },
    }
}

pub open spec fn ops_block(b: BlockNode) -> bool
    decreases b,
{
    ops_stmts(b.statements@) && match b.final_expr {
        Some(e) => ops_expr(e),
        None => true,
    }
}

pub open spec fn ops_stmts(ss: Seq<StatementNode>) -> bool
    decreases ss,
{
    ss.len() == 0 || (ops_stmts(ss.drop_last()) && ops_stmt(ss.last()))
}

pub open spec fn ops_stmt(s: StatementNode) -> bool
    decreases s,
{
    match s {
        StatementNode::Let(l) => ops_expr(l.value),
        StatementNode::Assign(a) => ops_expr(a.value),
        StatementNode::Expression(es) => ops_expr(es.expression),
    }
}

/// The errors that only a program too large for the machine meets.
pub open spec fn capacity_error(m: Seq<char>) -> bool {
    m == too_many_vregs_message() || m == too_many_labels_message()
        || m == crate::assembler::range_message() || m == crate::compile::too_large_message()
}

/// Every variable the checker knows is bound in lowering.
pub open spec fn vars_cover(a: Seq<Seq<char>>, b: Seq<(Seq<char>, VReg)>) -> bool {
    forall|n: Seq<char>| #[trigger] has_name(a, n) ==> lookup_binding(b, n) is Some
}

pub open spec fn funcs_in(fs: Seq<(Seq<char>, FunctionSignature)>, names: Set<Seq<char>>) -> bool {
    forall|i: int| 0 <= i < fs.len() ==> names.contains(#[trigger] fs[i].0)
}

/// An instruction that emission accepts once its registers are allocated,
/// calling only functions named in `names`.
pub open spec fn emittable(i: IrInstr, names: Set<Seq<char>>) -> bool {
    match i {
        IrInstr::BinaryOp { lhs, rhs, op, .. } => lhs is VReg && rhs is VReg && (op is Add
            || op is Sub || op is Mul || op is Le || op is Gt),
        IrInstr::Call { function, args, .. } => args.len() <= 4 && names.contains(function),
        IrInstr::Load { .. } | IrInstr::Store { .. } => false,
        _ => true,
    }
}

pub open spec fn all_emittable(o: Seq<IrInstr>, names: Set<Seq<char>>) -> bool {
    forall|k: int| 0 <= k < o.len() ==> emittable(#[trigger] o[k], names)
}

pub proof fn lemma_emittable_concat(a: Seq<IrInstr>, b: Seq<IrInstr>, names: Set<Seq<char>>)
    requires
        all_emittable(a, names),
        all_emittable(b, names),
    ensures
        all_emittable(a + b, names),
{
    assert forall|k: int| 0 <= k < (a + b).len() implies emittable(#[trigger] (a + b)[k], names) by {
        if k < a.len() {
            assert((a + b)[k] == a[k]);
        } else {
            assert((a + b)[k] == b[k - a.len()]);
        }
    }
}

pub proof fn lemma_bind_both(a: Seq<Seq<char>>, b: Seq<(Seq<char>, VReg)>, n: Seq<char>, v: VReg)
    requires
        vars_cover(a, b),
    ensures
        vars_cover(a.push(n), b.push((n, v))),
{
    assert forall|m: Seq<char>| #[trigger] has_name(a.push(n), m) implies lookup_binding(
        b.push((n, v)),
        m,
    ) is Some by {
        assert(b.push((n, v)).drop_last() =~= b);
        if m != n {
            let i = choose|i: int| 0 <= i < a.push(n).len() && a.push(n)[i] == m;
            assert(a.push(n)[i] == a[i]);
            assert(has_name(a, m));
        }
    }
}

pub proof fn lemma_bind_right(a: Seq<Seq<char>>, b: Seq<(Seq<char>, VReg)>, n: Seq<char>, v: VReg)
    requires
        vars_cover(a, b),
    ensures
        vars_cover(a, b.push((n, v))),
{
    assert forall|m: Seq<char>| #[trigger] has_name(a, m) implies lookup_binding(
        b.push((n, v)),
        m,
    ) is Some by {
        assert(b.push((n, v)).drop_last() =~= b);
    }
}

pub proof fn lemma_signature_named(fs: Seq<(Seq<char>, FunctionSignature)>, n: Seq<char>, names: Set<Seq<char>>)
    requires
        funcs_in(fs, names),
        lookup_signature(fs, n) is Some,
    ensures
        names.contains(n),
    decreases fs.len(),
{
    if fs.last().0 != n {
        assert forall|i: int| 0 <= i < fs.drop_last().len() implies names.contains(
            #[trigger] fs.drop_last()[i].0,
        ) by {
            assert(fs.drop_last()[i] == fs[i]);
        }
        lemma_signature_named(fs.drop_last(), n, names);
    } else {
        assert(fs[fs.len() - 1] == fs.last());
    }
}

pub proof fn lemma_expr_funcs(e: ExpressionNode, sv: ScopeView)
    requires
        check_expr(e, sv) is Ok,
    ensures
        check_expr(e, sv)->Ok_0.funcs == sv.funcs,
    decreases e,
{
    match e {
        ExpressionNode::Binary(b) => {
            lemma_expr_funcs(*b.left, sv);
            lemma_expr_funcs(*b.right, check_expr(*b.left, sv)->Ok_0);
        },
        ExpressionNode::Call(c) => {
            if check_exprs(c.args@, sv) is Ok {
                lemma_exprs_funcs(c.args@, sv);
            }
        },
        ExpressionNode::If(i) => lemma_if_funcs(*i, sv),
        ExpressionNode::While(w) => {
            lemma_expr_funcs(w.condition, sv);
            lemma_block_funcs(w.body, check_expr(w.condition, sv)->Ok_0);
        },
        _ => {},
    }
}

pub proof fn lemma_exprs_funcs(es: Seq<ExpressionNode>, sv: ScopeView)
    requires
        check_exprs(es, sv) is Ok,
    ensures
        check_exprs(es, sv)->Ok_0.funcs == sv.funcs,
    decreases es,
{
    if es.len() > 0 {
        lemma_exprs_funcs(es.drop_last(), sv);
        lemma_expr_funcs(es.last(), check_exprs(es.drop_last(), sv)->Ok_0);
    }
}

pub proof fn lemma_if_funcs(i: IfStatementNode, sv: ScopeView)
    requires
        check_if(i, sv) is Ok,
    ensures
        check_if(i, sv)->Ok_0.funcs == sv.funcs,
    decreases i,
{
    lemma_expr_funcs(i.condition, sv);
    let sv1 = check_expr(i.condition, sv)->Ok_0;
    lemma_block_funcs(i.then_block, sv1);
    let sv2 = check_block(i.then_block, sv1)->Ok_0;
    match i.else_clause {
        None => {},
        Some(c) => match c.body {
            ElseBodyNode::Block(b) => lemma_block_funcs(*b, sv2),
            ElseBodyNode::If(n) => lemma_if_funcs(*n, sv2),
        },
    }
}

pub proof fn lemma_block_funcs(b: BlockNode, sv: ScopeView)
    requires
        check_block(b, sv) is Ok,
    ensures
        check_block(b, sv)->Ok_0.funcs == sv.funcs,
    decreases b,
{
    lemma_stmts_funcs(b.statements@, sv);
    match b.final_expr {
        Some(e) => lemma_expr_funcs(e, check_stmts(b.statements@, sv)->Ok_0),
        None => {},
    }
}

pub proof fn lemma_stmts_funcs(ss: Seq<StatementNode>, sv: ScopeView)
    requires
        check_stmts(ss, sv) is Ok,
    ensures
        check_stmts(ss, sv)->Ok_0.funcs == sv.funcs,
    decreases ss,
{
    if ss.len() > 0 {
        lemma_stmts_funcs(ss.drop_last(), sv);
        lemma_stmt_funcs(ss.last(), check_stmts(ss.drop_last(), sv)->Ok_0);
    }
}

pub proof fn lemma_stmt_funcs(s: StatementNode, sv: ScopeView)
    requires
        check_stmt(s, sv) is Ok,
    ensures
        check_stmt(s, sv)->Ok_0.funcs == sv.funcs,
    decreases s,
{
    match s {
        StatementNode::Let(l) => lemma_expr_funcs(l.value, sv),
        StatementNode::Assign(a) => lemma_expr_funcs(a.value, sv),
        StatementNode::Expression(es) => lemma_expr_funcs(es.expression, sv),
    }
}

pub open spec fn expr_lowers(
    res: Result<(Seq<IrInstr>, VReg, LowerState), Seq<char>>,
    st: LowerState,
    after: ScopeView,
    names: Set<Seq<char>>,
) -> bool {
    match res {
        Ok((o, _v, s2)) => all_emittable(o, names) && vars_cover(after.vars, s2.vars)
            && s2.functions == st.functions,
        Err(m) => capacity_error(m),
    }
}

pub open spec fn stmts_lower(
    res: Result<(Seq<IrInstr>, LowerState), Seq<char>>,
    st: LowerState,
    after: ScopeView,
    names: Set<Seq<char>>,
) -> bool {
    match res {
        Ok((o, s2)) => all_emittable(o, names) && vars_cover(after.vars, s2.vars)
            && s2.functions == st.functions,
        Err(m) => capacity_error(m),
    }
}

/// The scope after checking the else arm of an `if`.
pub open spec fn check_else(c: Option<crate::ast::ElseClauseNode>, sv: ScopeView) -> crate::semantic::CheckResult {
    match c {
        None => Ok(sv),
        Some(cl) => match cl.body {
            ElseBodyNode::Block(b) => check_block(*b, sv),
            ElseBodyNode::If(n) => check_if(*n, sv),
        },
    }
}

pub proof fn lemma_zero_lowers(st: LowerState, after: ScopeView, names: Set<Seq<char>>)
    requires
        vars_cover(after.vars, st.vars),
    ensures
        expr_lowers(lower_zero(st), st, after, names),
{
}

pub proof fn lemma_expr_lowers(e: ExpressionNode, sv: ScopeView, st: LowerState, names: Set<Seq<char>>)
    requires
        check_expr(e, sv) is Ok,
        wf_expr(e),
        ops_expr(e),
        funcs_in(sv.funcs, names),
        vars_cover(sv.vars, st.vars),
    ensures
        check_expr(e, sv)->Ok_0.funcs == sv.funcs,
        expr_lowers(lower_expr(e, st), st, check_expr(e, sv)->Ok_0, names),
    decreases e,
{
    lemma_expr_funcs(e, sv);
    match e {
        ExpressionNode::Literal(_) => {},
        ExpressionNode::Identifier(t) => {
            let name = t.kind->Ident_0;
            assert(has_name(sv.vars, name@));
        },
        ExpressionNode::Binary(b) => {
            lemma_expr_lowers(*b.left, sv, st, names);
            let sv1 = check_expr(*b.left, sv)->Ok_0;
            match fresh_vreg(st) {
                Err(_) => {},
                Ok((dest, s1)) => {
                    lemma_expr_lowers(*b.left, sv, s1, names);
                    match lower_expr(*b.left, s1) {
                        Err(_) => {},
                        Ok((o1, l, s2)) => {
                            lemma_expr_lowers(*b.right, sv1, s2, names);
                            match lower_expr(*b.right, s2) {
                                Err(_) => {},
                                Ok((o2, r, s3)) => {
                                    let op = crate::lower::binop_for(b.operator.kind)->Some_0;
                                    let tail_bin = seq![
                                        IrInstr::BinaryOp {
                                            dest,
                                            lhs: Value::VReg(r),
                                            rhs: Value::VReg(r),
                                            op,
                                        },
                                    ];
                                    if crate::lower::contains_call(*b.right) {
                                        match fresh_vreg(s3) {
                                            Err(_) => {},
                                            Ok((l2, s4)) => {
                                                let push = seq![IrInstr::Push { src: l }];
                                                let tail = seq![
                                                    IrInstr::Pop { dest: l2 },
                                                    IrInstr::BinaryOp {
                                                        dest,
                                                        lhs: Value::VReg(l2),
                                                        rhs: Value::VReg(r),
                                                        op,
                                                    },
                                                ];
                                                assert(all_emittable(tail, names));
                                                assert(all_emittable(push, names));
                                                lemma_emittable_concat(o1, push, names);
                                                lemma_emittable_concat(o1 + push, o2, names);
                                                lemma_emittable_concat(o1 + push + o2, tail, names);
                                            },
                                        }
                                    } else {
                                        let tail = seq![
                                            IrInstr::BinaryOp {
                                                dest,
                                                lhs: Value::VReg(l),
                                                rhs: Value::VReg(r),
                                                op,
                                            },
                                        ];
                                        assert(all_emittable(tail, names));
                                        lemma_emittable_concat(o1, o2, names);
                                        lemma_emittable_concat(o1 + o2, tail, names);
                                    }
                                },
                            }
                        },
                    }
                },
            }
        },
        ExpressionNode::Call(c) => {
            let name = match *c.function {
                ExpressionNode::Identifier(ft) => ft.kind->Ident_0,
                _ => arbitrary(),
            };
            lemma_signature_named(sv.funcs, name@, names);
            lemma_args_lower(c.args@, sv, st, names);
            match lower_args(c.args@, st) {
                Err(_) => {},
                Ok((o, vs, s1)) => {
                    match fresh_vreg(s1) {
                        Err(_) => {},
                        Ok((d, s2)) => {
                            let tail = seq![
                                IrInstr::Call { dest: Some(d), function: name@, args: vs },
                            ];
                            assert(all_emittable(tail, names));
                            lemma_emittable_concat(o, tail, names);
                        },
                    }
                },
            }
        },
        ExpressionNode::If(i) => {
            lemma_if_lowers(*i, sv, st, names);
        },
        ExpressionNode::While(w) => {
            lemma_while_lowers(*w, sv, st, names);
        },
    }
}

pub proof fn lemma_args_lower(args: Seq<ExpressionNode>, sv: ScopeView, st: LowerState, names: Set<Seq<char>>)
    requires
        check_exprs(args, sv) is Ok,
        wf_exprs(args),
        ops_exprs(args),
        funcs_in(sv.funcs, names),
        vars_cover(sv.vars, st.vars),
    ensures
        check_exprs(args, sv)->Ok_0.funcs == sv.funcs,
        match lower_args(args, st) {
            Ok((o, vs, s2)) => all_emittable(o, names) && vars_cover(
                check_exprs(args, sv)->Ok_0.vars,
                s2.vars,
            ) && s2.functions == st.functions && vs.len() == args.len(),
            Err(m) => capacity_error(m),
        },
    decreases args,
{
    lemma_exprs_funcs(args, sv);
    if args.len() > 0 {
        lemma_args_lower(args.drop_last(), sv, st, names);
        let sv1 = check_exprs(args.drop_last(), sv)->Ok_0;
        match lower_args(args.drop_last(), st) {
            Err(_) => {},
            Ok((o, vs, s1)) => {
                lemma_expr_lowers(args.last(), sv1, s1, names);
                match lower_expr(args.last(), s1) {
                    Err(_) => {},
                    Ok((o2, v, s2)) => {
                        lemma_emittable_concat(o, o2, names);
                    },
                }
            },
        }
    }
}

pub proof fn lemma_block_lowers(b: BlockNode, sv: ScopeView, st: LowerState, names: Set<Seq<char>>)
    requires
        check_block(b, sv) is Ok,
        wf_block(b),
        ops_block(b),
        funcs_in(sv.funcs, names),
        vars_cover(sv.vars, st.vars),
    ensures
        check_block(b, sv)->Ok_0.funcs == sv.funcs,
        expr_lowers(lower_block_value(b, st), st, check_block(b, sv)->Ok_0, names),
    decreases b,
{
    lemma_block_funcs(b, sv);
    lemma_stmts_lower(b.statements@, sv, st, names);
    let sv1 = check_stmts(b.statements@, sv)->Ok_0;
    match lower_stmts(b.statements@, st) {
        Err(_) => {},
        Ok((os, s1)) => {
            match b.final_expr {
                Some(e) => {
                    lemma_expr_lowers(e, sv1, s1, names);
                    match lower_expr(e, s1) {
                        Err(_) => {},
                        Ok((of, v, s2)) => {
                            lemma_emittable_concat(os, of, names);
                        },
                    }
                },
                None => {
                    match lower_zero(s1) {
                        Err(_) => {},
                        Ok((oz, z, s2)) => {
                            lemma_emittable_concat(os, oz, names);
                        },
                    }
                },
            }
        },
    }
}

pub proof fn lemma_stmts_lower(ss: Seq<StatementNode>, sv: ScopeView, st: LowerState, names: Set<Seq<char>>)
    requires
        check_stmts(ss, sv) is Ok,
        wf_stmts(ss),
        ops_stmts(ss),
        funcs_in(sv.funcs, names),
        vars_cover(sv.vars, st.vars),
    ensures
        check_stmts(ss, sv)->Ok_0.funcs == sv.funcs,
        stmts_lower(lower_stmts(ss, st), st, check_stmts(ss, sv)->Ok_0, names),
    decreases ss,
{
    lemma_stmts_funcs(ss, sv);
    if ss.len() > 0 {
        lemma_stmts_lower(ss.drop_last(), sv, st, names);
        let sv1 = check_stmts(ss.drop_last(), sv)->Ok_0;
        match lower_stmts(ss.drop_last(), st) {
            Err(_) => {},
            Ok((o, s1)) => {
                lemma_stmt_lowers(ss.last(), sv1, s1, names);
                match lower_stmt(ss.last(), s1) {
                    Err(_) => {},
                    Ok((o2, s2)) => {
                        lemma_emittable_concat(o, o2, names);
                    },
                }
            },
        }
    }
}

pub proof fn lemma_stmt_lowers(s: StatementNode, sv: ScopeView, st: LowerState, names: Set<Seq<char>>)
    requires
        check_stmt(s, sv) is Ok,
        wf_stmt(s),
        ops_stmt(s),
        funcs_in(sv.funcs, names),
        vars_cover(sv.vars, st.vars),
    ensures
        check_stmt(s, sv)->Ok_0.funcs == sv.funcs,
        stmts_lower(lower_stmt(s, st), st, check_stmt(s, sv)->Ok_0, names),
    decreases s,
{
    lemma_stmt_funcs(s, sv);
    match s {
        StatementNode::Expression(es) => {
            lemma_expr_lowers(es.expression, sv, st, names);
        },
        StatementNode::Let(l) => {
            lemma_expr_lowers(l.value, sv, st, names);
            let sv1 = check_expr(l.value, sv)->Ok_0;
            match lower_expr(l.value, st) {
                Err(_) => {},
                Ok((o, v, s1)) => {
                    lemma_bind_both(sv1.vars, s1.vars, l.name.kind->Ident_0@, v);
                },
            }
        },
        StatementNode::Assign(a) => {
            lemma_expr_lowers(a.value, sv, st, names);
            let sv1 = check_expr(a.value, sv)->Ok_0;
            match lower_expr(a.value, st) {
                Err(_) => {},
                Ok((o, v, s1)) => {
                    let n = a.name.kind->Ident_0@;
                    assert(has_name(sv1.vars, n));
                    lemma_bind_right(sv1.vars, s1.vars, n, v);
                },
            }
        },
    }
}

pub proof fn lemma_else_lowers(
    c: Option<crate::ast::ElseClauseNode>,
    sv: ScopeView,
    st: LowerState,
    names: Set<Seq<char>>,
)
    requires
        check_else(c, sv) is Ok,
        match c {
            None => true,
            Some(cl) => match cl.body {
                ElseBodyNode::Block(b) => wf_block(*b) && ops_block(*b),
                ElseBodyNode::If(n) => wf_if(*n) && ops_if(*n),
            },
        },
        funcs_in(sv.funcs, names),
        vars_cover(sv.vars, st.vars),
    ensures
        check_else(c, sv)->Ok_0.funcs == sv.funcs,
        expr_lowers(lower_else(c, st), st, check_else(c, sv)->Ok_0, names),
    decreases c,
{
    match c {
        None => {},
        Some(cl) => match cl.body {
            ElseBodyNode::Block(b) => lemma_block_funcs(*b, sv),
            ElseBodyNode::If(n) => lemma_if_funcs(*n, sv),
        },
    }
    match c {
        None => {},
        Some(cl) => match cl.body {
            ElseBodyNode::Block(b) => lemma_block_lowers(*b, sv, st, names),
            ElseBodyNode::If(n) => lemma_if_lowers(*n, sv, st, names),
        },
    }
}

pub proof fn lemma_if_lowers(i: IfStatementNode, sv: ScopeView, st: LowerState, names: Set<Seq<char>>)
    requires
        check_if(i, sv) is Ok,
        wf_if(i),
        ops_if(i),
        funcs_in(sv.funcs, names),
        vars_cover(sv.vars, st.vars),
    ensures
        check_if(i, sv)->Ok_0.funcs == sv.funcs,
        expr_lowers(lower_if(i, st), st, check_if(i, sv)->Ok_0, names),
    decreases i,
{
    lemma_if_funcs(i, sv);
    let sv1 = check_expr(i.condition, sv)->Ok_0;
    let sv2 = check_block(i.then_block, sv1)->Ok_0;
    assert(check_if(i, sv) == check_else(i.else_clause, sv2));
    match fresh_label(st) {
        Err(_) => {},
        Ok((else_l, s1)) => match fresh_label(s1) {
            Err(_) => {},
            Ok((end_l, s2)) => match fresh_vreg(s2) {
                Err(_) => {},
                Ok((res, s3)) => {
                    lemma_expr_lowers(i.condition, sv, s3, names);
                    match lower_expr(i.condition, s3) {
                        Err(_) => {},
                        Ok((oc, c, s4)) => match fresh_label(s4) {
                            Err(_) => {},
                            Ok((then_l, s5)) => {
                                lemma_block_lowers(i.then_block, sv1, s5, names);
                                match lower_block_value(i.then_block, s5) {
                                    Err(_) => {},
                                    Ok((ot, tv, s6)) => {
                                        lemma_else_lowers(i.else_clause, sv2, s6, names);
                                        match lower_else(i.else_clause, s6) {
                                            Err(_) => {},
                                            Ok((oe, ev, s7)) => {
                                                let a = seq![
                                                    IrInstr::Branch {
                                                        condition: c,
                                                        true_label: then_l,
                                                        false_label: else_l,
                                                    },
                                                    IrInstr::Label(then_l),
                                                ];
                                                let b = seq![
                                                    IrInstr::Copy { dest: res, src: Value::VReg(tv) },
                                                    IrInstr::Jump(end_l),
                                                    IrInstr::Label(else_l),
                                                ];
                                                let d = seq![
                                                    IrInstr::Copy { dest: res, src: Value::VReg(ev) },
                                                    IrInstr::Label(end_l),
                                                ];
                                                assert(all_emittable(a, names));
                                                assert(all_emittable(b, names));
                                                assert(all_emittable(d, names));
                                                lemma_emittable_concat(oc, a, names);
                                                lemma_emittable_concat(oc + a, ot, names);
                                                lemma_emittable_concat(oc + a + ot, b, names);
                                                lemma_emittable_concat(oc + a + ot + b, oe, names);
                                                lemma_emittable_concat(oc + a + ot + b + oe, d, names);
                                            },
                                        }
                                    },
                                }
                            },
                        },
                    }
                },
            },
        },
    }
}

pub proof fn lemma_while_lowers(w: WhileStatementNode, sv: ScopeView, st: LowerState, names: Set<Seq<char>>)
    requires
        check_expr(w.condition, sv) is Ok,
        check_block(w.body, check_expr(w.condition, sv)->Ok_0) is Ok,
        wf_expr(w.condition) && wf_block(w.body),
        ops_expr(w.condition) && ops_block(w.body),
        funcs_in(sv.funcs, names),
        vars_cover(sv.vars, st.vars),
    ensures
        check_block(w.body, check_expr(w.condition, sv)->Ok_0)->Ok_0.funcs == sv.funcs,
        expr_lowers(
            lower_while(w, st),
            st,
            check_block(w.body, check_expr(w.condition, sv)->Ok_0)->Ok_0,
            names,
        ),
    decreases w,
{
    lemma_expr_funcs(w.condition, sv);
    lemma_block_funcs(w.body, check_expr(w.condition, sv)->Ok_0);
    let sv1 = check_expr(w.condition, sv)->Ok_0;
    let sv2 = check_stmts(w.body.statements@, sv1)->Ok_0;
    match fresh_label(st) {
        Err(_) => {},
        Ok((start_l, s1)) => match fresh_label(s1) {
            Err(_) => {},
            Ok((end_l, s2)) => {
                lemma_expr_lowers(w.condition, sv, s2, names);
                match lower_expr(w.condition, s2) {
                    Err(_) => {},
                    Ok((oc, c, s3)) => match fresh_label(s3) {
                        Err(_) => {},
                        Ok((body_l, s4)) => {
                            lemma_stmts_lower(w.body.statements@, sv1, s4, names);
                            match lower_stmts(w.body.statements@, s4) {
                                Err(_) => {},
                                Ok((os, s5)) => {
                                    match w.body.final_expr {
                                        Some(e) => {
                                            lemma_expr_lowers(e, sv2, s5, names);
                                        },
                                        None => {},
                                    }
                                    match lower_opt_expr(w.body.final_expr, s5) {
                                        Err(_) => {},
                                        Ok((of, s6)) => match lower_zero(s6) {
                                            Err(_) => {},
                                            Ok((oz, z, s7)) => {
                                                let h = seq![IrInstr::Label(start_l)];
                                                let a = seq![
                                                    IrInstr::Branch {
                                                        condition: c,
                                                        true_label: body_l,
                                                        false_label: end_l,
                                                    },
                                                    IrInstr::Label(body_l),
                                                ];
                                                let b = seq![IrInstr::Jump(start_l), IrInstr::Label(end_l)];
                                                assert(all_emittable(h, names));
                                                assert(all_emittable(a, names));
                                                assert(all_emittable(b, names));
                                                lemma_emittable_concat(h, oc, names);
                                                lemma_emittable_concat(h + oc, a, names);
                                                lemma_emittable_concat(h + oc + a, os, names);
                                                lemma_emittable_concat(h + oc + a + os, of, names);
                                                lemma_emittable_concat(h + oc + a + os + of, b, names);
                                                lemma_emittable_concat(h + oc + a + os + of + b, oz, names);
                                            },
                                        },
                                    }
                                },
                            }
                        },
                    },
                }
            },
        },
    }
}


pub open spec fn function_lowers(
    res: Result<(Seq<IrInstr>, LowerState), Seq<char>>,
    st: LowerState,
    name: Seq<char>,
    names: Set<Seq<char>>,
) -> bool {
    match res {
        Ok((o, s2)) => {
            &&& all_emittable(o, names)
            &&& s2.vars == Seq::<(Seq<char>, VReg)>::empty()
            &&& s2.functions.len() == st.functions.len() + 1
            &&& s2.functions.drop_last() == st.functions
            &&& s2.functions.last().0 == name
            &&& o.len() > 0
            &&& o[0] == IrInstr::Label(s2.functions.last().1)
        },
        Err(m) => capacity_error(m),
    }
}

pub proof fn lemma_function_lowers(f: FunctionNode, svf: ScopeView, st: LowerState, names: Set<Seq<char>>)
    requires
        check_function(f, svf) is Ok,
        wf_function(f),
        ops_block(f.body),
        funcs_in(svf.funcs, names),
        names.contains(f.name.kind->Ident_0@),
        st.vars == Seq::<(Seq<char>, VReg)>::empty(),
    ensures
        function_lowers(lower_function(f, st), st, f.name.kind->Ident_0@, names),
{
    let name = f.name.kind->Ident_0;
    let sig = FunctionSignature {
        param_count: f.param_list.params@.len() as usize,
        return_type: crate::semantic::RueType::I64,
    };
    let fs = svf.funcs.push((name@, sig));
    assert forall|i: int| 0 <= i < fs.len() implies names.contains(#[trigger] fs[i].0) by {
        if i < svf.funcs.len() {
            assert(fs[i] == svf.funcs[i]);
        }
    }
    let body_scope = ScopeView { vars: seq![], funcs: fs };
    let local = if f.param_list.params@.len() == 1 && f.param_list.params@[0].kind is Ident {
        crate::semantic::with_var(body_scope, f.param_list.params@[0].kind->Ident_0@)
    } else {
        body_scope
    };
    assert(check_block(f.body, local) is Ok);
    match function_entry(f, st) {
        Err(_) => {},
        Ok((o0, s1)) => {
            let l = fresh_label(st)->Ok_0.0;
            assert(s1.functions == st.functions.push((name@, l)));
            assert(st.functions.push((name@, l)).drop_last() =~= st.functions);
            assert(o0 == seq![IrInstr::Label(l)]);
            match function_param(f, s1) {
                Err(_) => {},
                Ok((o1, s2)) => {
                    if f.param_list.params@.len() == 1 {
                        let p = f.param_list.params@[0].kind->Ident_0@;
                        let v = fresh_vreg(s1)->Ok_0.0;
                        assert(vars_cover(Seq::<Seq<char>>::empty(), Seq::<(Seq<char>, VReg)>::empty()));
                        lemma_bind_both(Seq::<Seq<char>>::empty(), Seq::<(Seq<char>, VReg)>::empty(), p, v);
                        assert(seq![p] =~= Seq::<Seq<char>>::empty().push(p));
                        assert(local.vars =~= Seq::<Seq<char>>::empty().push(p));
                    } else {
                        assert(vars_cover(local.vars, s2.vars));
                    }
                    lemma_stmts_lower(f.body.statements@, local, s2, names);
                    let sv3 = check_stmts(f.body.statements@, local)->Ok_0;
                    lemma_stmts_funcs(f.body.statements@, local);
                    match lower_stmts(f.body.statements@, s2) {
                        Err(_) => {},
                        Ok((o2, s3)) => {
                            assert(all_emittable(o0, names));
                            assert(all_emittable(o1, names));
                            lemma_emittable_concat(o0, o1, names);
                            lemma_emittable_concat(o0 + o1, o2, names);
                            match f.body.final_expr {
                                Some(e) => {
                                    lemma_expr_lowers(e, sv3, s3, names);
                                    match lower_expr(e, s3) {
                                        Err(_) => {},
                                        Ok((o3, v, s4)) => {
                                            let r = seq![IrInstr::Return { value: Some(v) }];
                                            assert(all_emittable(r, names));
                                            lemma_emittable_concat(o0 + o1 + o2, o3, names);
                                            lemma_emittable_concat(o0 + o1 + o2 + o3, r, names);
                                            assert((o0 + o1 + o2 + o3 + r)[0] == o0[0]);
                                            assert(s4.functions == s1.functions);
                                            assert(Seq::<(Seq<char>, VReg)>::empty() =~= seq![]);
                                        },
                                    }
                                },
                                None => {
                                    let r = seq![IrInstr::Return { value: None }];
                                    assert(all_emittable(r, names));
                                    lemma_emittable_concat(o0 + o1 + o2, r, names);
                                    assert((o0 + o1 + o2 + r)[0] == o0[0]);
                                    assert(s3.functions == s1.functions);
                                    assert(Seq::<(Seq<char>, VReg)>::empty() =~= seq![]);
                                },
                            }
                        },
                    }
                },
            }
        },
    }
}






} // verus!

//! Lowering of the syntax tree to the virtual-register IR.
use crate::ast::{
    BlockNode, CstNode, CstRoot, ElseBodyNode, ElseClauseNode, ExpressionNode, FunctionNode,
    IfStatementNode, StatementNode, WhileStatementNode,
};
use crate::ir::{
    BinOp, CodegenError, Instruction, IrInstr, LabelId, Register, START_LABEL, VReg, Value, ir_view,
};
use crate::lexer::TokenKind;
use crate::semantic::Scope;
use crate::text::join;
use vstd::prelude::*;
use vstd::string::StringExecFns;

verus! {

broadcast use vstd::std_specs::vec::group_vec_axioms, vstd::seq::group_seq_axioms;

/// What lowering has fixed so far: the next virtual register and label
/// numbers, the variable bindings of the current function (a later binding
/// of a name hides an earlier one) and the entry label of each function.
pub struct LowerState {
    pub vregs: nat,
    pub labels: nat,
    pub vars: Seq<(Seq<char>, VReg)>,
    pub functions: Seq<(Seq<char>, LabelId)>,
}

/// The virtual register bound last to `name`.
pub open spec fn lookup_binding(vars: Seq<(Seq<char>, VReg)>, name: Seq<char>) -> Option<VReg>
    decreases vars.len(),
{
    if vars.len() == 0 {
        None
    } else if vars.last().0 == name {
        Some(vars.last().1)
    } else {
        lookup_binding(vars.drop_last(), name)
    }
}

pub open spec fn too_many_vregs_message() -> Seq<char> {
    "Too many virtual registers"@
}

pub open spec fn too_many_labels_message() -> Seq<char> {
    "Too many labels"@
}

/// A new virtual register.
pub open spec fn fresh_vreg(st: LowerState) -> Result<(VReg, LowerState), Seq<char>> {
    if st.vregs < u32::MAX {
        Ok(
            (
                VReg(st.vregs as u32),
                LowerState { vregs: st.vregs + 1, labels: st.labels, vars: st.vars, functions: st.functions },
            ),
        )
    } else {
        Err(too_many_vregs_message())
    }
}

/// A new label; the id reserved for the entry point is never handed out.
pub open spec fn fresh_label(st: LowerState) -> Result<(LabelId, LowerState), Seq<char>> {
    let n = if st.labels == START_LABEL as nat {
        st.labels + 1
    } else {
        st.labels
    };
    if n < u32::MAX {
        Ok(
            (
                LabelId(n as u32),
                LowerState { vregs: st.vregs, labels: n + 1, vars: st.vars, functions: st.functions },
            ),
        )
    } else {
        Err(too_many_labels_message())
    }
}

pub open spec fn bind(st: LowerState, name: Seq<char>, v: VReg) -> LowerState {
    LowerState { vregs: st.vregs, labels: st.labels, vars: st.vars.push((name, v)), functions: st.functions }
}

/// The IR operator of a binary operator token.
pub open spec fn binop_for(k: TokenKind) -> Option<BinOp> {
    match k {
        TokenKind::Plus => Some(BinOp::Add),
        TokenKind::Minus => Some(BinOp::Sub),
        TokenKind::Star => Some(BinOp::Mul),
        TokenKind::Slash => Some(BinOp::Div),
        TokenKind::LessEqual => Some(BinOp::Le),
        TokenKind::Greater => Some(BinOp::Gt),
        _ => None,
    }
}

/// Whether an expression calls a function anywhere inside it.
pub open spec fn contains_call(e: ExpressionNode) -> bool
    decreases e,
{
    match e {
        ExpressionNode::Call(_) => true,
        ExpressionNode::Binary(b) => contains_call(*b.left) || contains_call(*b.right),
        ExpressionNode::If(i) => if_contains_call(*i),
        ExpressionNode::While(w) => contains_call(w.condition) || block_contains_call(w.body),
        _ => false,
    }
}

pub open spec fn if_contains_call(i: IfStatementNode) -> bool
    decreases i,
{
    contains_call(i.condition) || block_contains_call(i.then_block) || match i.else_clause {
        Some(c) => match c.body {
            ElseBodyNode::Block(b) => block_contains_call(*b),
            ElseBodyNode::If(n) => if_contains_call(*n),
        },
        None => false,
    }
}

pub open spec fn block_contains_call(b: BlockNode) -> bool
    decreases b,
{
    stmts_contain_call(b.statements@) || match b.final_expr {
        Some(e) => contains_call(e),
        None => false,
    }
}

pub open spec fn stmts_contain_call(ss: Seq<StatementNode>) -> bool
    decreases ss,
{
    if ss.len() == 0 {
        false
    } else {
        stmts_contain_call(ss.drop_last()) || stmt_contains_call(ss.last())
    }
}

pub open spec fn stmt_contains_call(s: StatementNode) -> bool
    decreases s,
{
    match s {
        StatementNode::Expression(es) => contains_call(es.expression),
        StatementNode::Let(l) => contains_call(l.value),
        StatementNode::Assign(a) => contains_call(a.value),
    }
}

/// A new register holding zero.
pub open spec fn lower_zero(st: LowerState) -> Result<(Seq<IrInstr>, VReg, LowerState), Seq<char>> {
    match fresh_vreg(st) {
        Err(m) => Err(m),
        Ok((z, s1)) => Ok((seq![IrInstr::Copy { dest: z, src: Value::Immediate(0) }], z, s1)),
    }
}

/// The IR of an expression, the register holding its value, and the state after.
pub open spec fn lower_expr(e: ExpressionNode, st: LowerState) -> Result<
    (Seq<IrInstr>, VReg, LowerState),
    Seq<char>,
>
    decreases e,
{
    match e {
        ExpressionNode::Literal(t) => match t.kind {
            TokenKind::Integer(v) => match fresh_vreg(st) {
                Err(m) => Err(m),
                Ok((d, s1)) => Ok((seq![IrInstr::Copy { dest: d, src: Value::Immediate(v) }], d, s1)),
            },
            _ => Err("Invalid literal token"@),
        },
        ExpressionNode::Identifier(t) => match t.kind {
            TokenKind::Ident(name) => match lookup_binding(st.vars, name@) {
                None => Err("Undefined variable: "@ + name@),
                Some(v) => match fresh_vreg(st) {
                    Err(m) => Err(m),
                    Ok((d, s1)) => Ok((seq![IrInstr::Copy { dest: d, src: Value::VReg(v) }], d, s1)),
                },
            },
            _ => Err("Invalid identifier token"@),
        },
        ExpressionNode::Binary(b) => match fresh_vreg(st) {
            Err(m) => Err(m),
            Ok((dest, s1)) => match binop_for(b.operator.kind) {
                None => Err("Unsupported operator: "@ + b.operator.kind.spec_name()),
                Some(op) => match lower_expr(*b.left, s1) {
                    Err(m) => Err(m),
                    Ok((o1, l, s2)) => match lower_expr(*b.right, s2) {
                        Err(m) => Err(m),
                        Ok((o2, r, s3)) => if contains_call(*b.right) {
                            match fresh_vreg(s3) {
                                Err(m) => Err(m),
                                Ok((l2, s4)) => Ok(
                                    (
                                        o1 + seq![IrInstr::Push { src: l }] + o2 + seq![
                                            IrInstr::Pop { dest: l2 },
                                            IrInstr::BinaryOp {
                                                dest,
                                                lhs: Value::VReg(l2),
                                                rhs: Value::VReg(r),
                                                op,
                                            },
                                        ],
                                        dest,
                                        s4,
                                    ),
                                ),
                            }
                        } else {
                            Ok(
                                (
                                    o1 + o2 + seq![
                                        IrInstr::BinaryOp {
                                            dest,
                                            lhs: Value::VReg(l),
                                            rhs: Value::VReg(r),
                                            op,
                                        },
                                    ],
                                    dest,
                                    s3,
                                ),
                            )
                        },
                    },
                },
            },
        },
        ExpressionNode::Call(c) => match lower_args(c.args@, st) {
            Err(m) => Err(m),
            Ok((o, vs, s1)) => match *c.function {
                ExpressionNode::Identifier(ft) => match ft.kind {
                    TokenKind::Ident(name) => match fresh_vreg(s1) {
                        Err(m) => Err(m),
                        Ok((d, s2)) => Ok(
                            (
                                o + seq![
                                    IrInstr::Call { dest: Some(d), function: name@, args: vs },
                                ],
                                d,
                                s2,
                            ),
                        ),
                    },
                    _ => Err("Invalid function name"@),
                },
                _ => Err("Function calls must use identifiers"@),
            },
        },
        ExpressionNode::If(i) => lower_if(*i, st),
        ExpressionNode::While(w) => lower_while(*w, st),
    }
}

/// The IR of call arguments, left to right, and their registers.
pub open spec fn lower_args(args: Seq<ExpressionNode>, st: LowerState) -> Result<
    (Seq<IrInstr>, Seq<VReg>, LowerState),
    Seq<char>,
>
    decreases args,
{
    if args.len() == 0 {
        Ok((seq![], seq![], st))
    } else {
        match lower_args(args.drop_last(), st) {
            Err(m) => Err(m),
            Ok((o, vs, s1)) => match lower_expr(args.last(), s1) {
                Err(m) => Err(m),
                Ok((o2, v, s2)) => Ok((o + o2, vs.push(v), s2)),
            },
        }
    }
}

/// An `if` expression: both arms write one shared result register.
pub open spec fn lower_if(i: IfStatementNode, st: LowerState) -> Result<
    (Seq<IrInstr>, VReg, LowerState),
    Seq<char>,
>
    decreases i,
{
    match fresh_label(st) {
        Err(m) => Err(m),
        Ok((else_l, s1)) => match fresh_label(s1) {
            Err(m) => Err(m),
            Ok((end_l, s2)) => match fresh_vreg(s2) {
                Err(m) => Err(m),
                Ok((res, s3)) => match lower_expr(i.condition, s3) {
                    Err(m) => Err(m),
                    Ok((oc, c, s4)) => match fresh_label(s4) {
                        Err(m) => Err(m),
                        Ok((then_l, s5)) => match lower_block_value(i.then_block, s5) {
                            Err(m) => Err(m),
                            Ok((ot, tv, s6)) => match lower_else(i.else_clause, s6) {
                                Err(m) => Err(m),
                                Ok((oe, ev, s7)) => Ok(
                                    (
                                        oc + seq![
                                            IrInstr::Branch {
                                                condition: c,
                                                true_label: then_l,
                                                false_label: else_l,
                                            },
                                            IrInstr::Label(then_l),
                                        ] + ot + seq![
                                            IrInstr::Copy { dest: res, src: Value::VReg(tv) },
                                            IrInstr::Jump(end_l),
                                            IrInstr::Label(else_l),
                                        ] + oe + seq![
                                            IrInstr::Copy { dest: res, src: Value::VReg(ev) },
                                            IrInstr::Label(end_l),
                                        ],
                                        res,
                                        s7,
                                    ),
                                ),
                            },
                        },
                    },
                },
            },
        },
    }
}

/// The else arm of an `if`; a missing one yields zero.
pub open spec fn lower_else(c: Option<ElseClauseNode>, st: LowerState) -> Result<
    (Seq<IrInstr>, VReg, LowerState),
    Seq<char>,
>
    decreases c,
{
    match c {
        None => lower_zero(st),
        Some(c) => match c.body {
            ElseBodyNode::Block(b) => lower_block_value(*b, st),
            ElseBodyNode::If(n) => lower_if(*n, st),
        },
    }
}

/// A block's statements, then its final expression or zero.
pub open spec fn lower_block_value(b: BlockNode, st: LowerState) -> Result<
    (Seq<IrInstr>, VReg, LowerState),
    Seq<char>,
>
    decreases b,
{
    match lower_stmts(b.statements@, st) {
        Err(m) => Err(m),
        Ok((os, s1)) => match b.final_expr {
            Some(e) => match lower_expr(e, s1) {
                Err(m) => Err(m),
                Ok((of, v, s2)) => Ok((os + of, v, s2)),
            },
            None => match lower_zero(s1) {
                Err(m) => Err(m),
                Ok((oz, z, s2)) => Ok((os + oz, z, s2)),
            },
        },
    }
}

/// A `while` expression; its value is zero.
pub open spec fn lower_while(w: WhileStatementNode, st: LowerState) -> Result<
    (Seq<IrInstr>, VReg, LowerState),
    Seq<char>,
>
    decreases w,
{
    match fresh_label(st) {
        Err(m) => Err(m),
        Ok((start_l, s1)) => match fresh_label(s1) {
            Err(m) => Err(m),
            Ok((end_l, s2)) => match lower_expr(w.condition, s2) {
                Err(m) => Err(m),
                Ok((oc, c, s3)) => match fresh_label(s3) {
                    Err(m) => Err(m),
                    Ok((body_l, s4)) => match lower_stmts(w.body.statements@, s4) {
                        Err(m) => Err(m),
                        Ok((os, s5)) => match lower_opt_expr(w.body.final_expr, s5) {
                            Err(m) => Err(m),
                            Ok((of, s6)) => match lower_zero(s6) {
                                Err(m) => Err(m),
                                Ok((oz, z, s7)) => Ok(
                                    (
                                        seq![IrInstr::Label(start_l)] + oc + seq![
                                            IrInstr::Branch {
                                                condition: c,
                                                true_label: body_l,
                                                false_label: end_l,
                                            },
                                            IrInstr::Label(body_l),
                                        ] + os + of + seq![
                                            IrInstr::Jump(start_l),
                                            IrInstr::Label(end_l),
                                        ] + oz,
                                        z,
                                        s7,
                                    ),
                                ),
                            },
                        },
                    },
                },
            },
        },
    }
}

/// An optional expression whose value is dropped.
pub open spec fn lower_opt_expr(e: Option<ExpressionNode>, st: LowerState) -> Result<
    (Seq<IrInstr>, LowerState),
    Seq<char>,
>
    decreases e,
{
    match e {
        Some(x) => match lower_expr(x, st) {
            Err(m) => Err(m),
            Ok((o, _v, s1)) => Ok((o, s1)),
        },
        None => Ok((seq![], st)),
    }
}

/// A statement: `let` and assignment bind the name to the value's register.
pub open spec fn lower_stmt(s: StatementNode, st: LowerState) -> Result<
    (Seq<IrInstr>, LowerState),
    Seq<char>,
>
    decreases s,
{
    match s {
        StatementNode::Expression(es) => match lower_expr(es.expression, st) {
            Err(m) => Err(m),
            Ok((o, _v, s1)) => Ok((o, s1)),
        },
        StatementNode::Let(l) => match lower_expr(l.value, st) {
            Err(m) => Err(m),
            Ok((o, v, s1)) => match l.name.kind {
                TokenKind::Ident(n) => Ok((o, bind(s1, n@, v))),
                _ => Err("Invalid variable name in let statement"@),
            },
        },
        StatementNode::Assign(a) => match lower_expr(a.value, st) {
            Err(m) => Err(m),
            Ok((o, v, s1)) => match a.name.kind {
                TokenKind::Ident(n) => if lookup_binding(s1.vars, n@) is Some {
                    Ok((o, bind(s1, n@, v)))
                } else {
                    Err("Undefined variable in assignment: "@ + n@)
                },
                _ => Err("Invalid variable name in assignment"@),
            },
        },
    }
}

pub open spec fn lower_stmts(ss: Seq<StatementNode>, st: LowerState) -> Result<
    (Seq<IrInstr>, LowerState),
    Seq<char>,
>
    decreases ss,
{
    if ss.len() == 0 {
        Ok((seq![], st))
    } else {
        match lower_stmts(ss.drop_last(), st) {
            Err(m) => Err(m),
            Ok((o, s1)) => match lower_stmt(ss.last(), s1) {
                Err(m) => Err(m),
                Ok((o2, s2)) => Ok((o + o2, s2)),
            },
        }
    }
}

/// A function: entry label (recorded under the function's name), the
/// parameter copied out of RDI, the body, and a `Return` of its value.
/// Variable bindings are dropped afterwards.
pub open spec fn lower_function(f: FunctionNode, st: LowerState) -> Result<
    (Seq<IrInstr>, LowerState),
    Seq<char>,
> {
    match function_entry(f, st) {
        Err(m) => Err(m),
        Ok((o0, s1)) => match function_param(f, s1) {
            Err(m) => Err(m),
            Ok((o1, s2)) => match lower_stmts(f.body.statements@, s2) {
                Err(m) => Err(m),
                Ok((o2, s3)) => match f.body.final_expr {
                    Some(e) => match lower_expr(e, s3) {
                        Err(m) => Err(m),
                        Ok((o3, v, s4)) => Ok(
                            (
                                o0 + o1 + o2 + o3 + seq![IrInstr::Return { value: Some(v) }],
                                LowerState { vregs: s4.vregs, labels: s4.labels, vars: seq![], functions: s4.functions },
                            ),
                        ),
                    },
                    None => Ok(
                        (
                            o0 + o1 + o2 + seq![IrInstr::Return { value: None }],
                            LowerState { vregs: s3.vregs, labels: s3.labels, vars: seq![], functions: s3.functions },
                        ),
                    ),
                },
            },
        },
    }
}

pub open spec fn function_entry(f: FunctionNode, st: LowerState) -> Result<
    (Seq<IrInstr>, LowerState),
    Seq<char>,
> {
    match f.name.kind {
        TokenKind::Ident(n) => match fresh_label(st) {
            Err(m) => Err(m),
            Ok((l, s1)) => Ok(
                (
                    seq![IrInstr::Label(l)],
                    LowerState { vregs: s1.vregs, labels: s1.labels, vars: s1.vars, functions: s1.functions.push((n@, l)) },
                ),
            ),
        },
        _ => Ok((seq![], st)),
    }
}

pub open spec fn function_param(f: FunctionNode, st: LowerState) -> Result<
    (Seq<IrInstr>, LowerState),
    Seq<char>,
> {
    if f.param_list.params@.len() > 0 && f.param_list.params@[0].kind is Ident {
        match fresh_vreg(st) {
            Err(m) => Err(m),
            Ok((v, s1)) => Ok(
                (
                    seq![IrInstr::Copy { dest: v, src: Value::PhysicalReg(Register::Rdi) }],
                    bind(s1, f.param_list.params@[0].kind->Ident_0@, v),
                ),
            ),
        }
    } else {
        Ok((seq![], st))
    }
}

/// Program entry: call `main`, then `exit` with its result.
pub open spec fn lower_prologue(st: LowerState) -> Result<(Seq<IrInstr>, LowerState), Seq<char>> {
    match fresh_vreg(st) {
        Err(m) => Err(m),
        Ok((main_result, s1)) => match fresh_vreg(s1) {
            Err(m) => Err(m),
            Ok((exit_code, s2)) => match fresh_vreg(s2) {
                Err(m) => Err(m),
                Ok((num, s3)) => match fresh_vreg(s3) {
                    Err(m) => Err(m),
                    Ok((result, s4)) => Ok(
                        (
                            seq![
                                IrInstr::Label(LabelId(START_LABEL)),
                                IrInstr::Call {
                                    dest: Some(main_result),
                                    function: "main"@,
                                    args: seq![],
                                },
                                IrInstr::Copy { dest: exit_code, src: Value::VReg(main_result) },
                                IrInstr::Copy { dest: num, src: Value::Immediate(60) },
                                IrInstr::Syscall { result, syscall_num: num, args: seq![exit_code] },
                            ],
                            s4,
                        ),
                    ),
                },
            },
        },
    }
}

/// Whether an item is a function with a name other than `main`.
pub open spec fn is_other_function(item: CstNode) -> bool {
    match item {
        CstNode::Function(f) => f.name.kind is Ident && f.name.kind->Ident_0@ != "main"@,
        _ => false,
    }
}

pub open spec fn is_main_function(item: CstNode) -> bool {
    match item {
        CstNode::Function(f) => f.name.kind is Ident && f.name.kind->Ident_0@ == "main"@,
        _ => false,
    }
}

/// Index of the first function named `main`.
pub open spec fn first_main(items: Seq<CstNode>) -> Option<int>
    decreases items.len(),
{
    if items.len() == 0 {
        None
    } else {
        match first_main(items.drop_last()) {
            Some(k) => Some(k),
            None => if is_main_function(items.last()) {
                Some(items.len() - 1)
            } else {
                None
            },
        }
    }
}

/// The functions other than `main`, in source order.
pub open spec fn lower_others(items: Seq<CstNode>, st: LowerState) -> Result<
    (Seq<IrInstr>, LowerState),
    Seq<char>,
>
    decreases items.len(),
{
    if items.len() == 0 {
        Ok((seq![], st))
    } else {
        match lower_others(items.drop_last(), st) {
            Err(m) => Err(m),
            Ok((o, s1)) => if is_other_function(items.last()) {
                match lower_function(*items.last()->Function_0, s1) {
                    Err(m) => Err(m),
                    Ok((o2, s2)) => Ok((o + o2, s2)),
                }
            } else {
                Ok((o, s1))
            },
        }
    }
}

pub open spec fn no_main_message() -> Seq<char> {
    "No main function found"@
}

/// The whole program: the entry sequence, `main`, then the other functions.
pub open spec fn lower_program(items: Seq<CstNode>, st: LowerState) -> Result<
    (Seq<IrInstr>, LowerState),
    Seq<char>,
> {
    match lower_prologue(st) {
        Err(m) => Err(m),
        Ok((op, s1)) => match first_main(items) {
            None => Err(no_main_message()),
            Some(k) => match lower_function(*items[k]->Function_0, s1) {
                Err(m) => Err(m),
                Ok((om, s2)) => match lower_others(items, s2) {
                    Err(m) => Err(m),
                    Ok((oo, s3)) => Ok((op + om + oo, s3)),
                },
            },
        },
    }
}

/// The lowering state a fresh generator starts from.
pub open spec fn initial_state() -> LowerState {
    LowerState { vregs: 0, labels: 0, vars: seq![], functions: seq![] }
}

pub open spec fn expr_post(
    r: Result<VReg, CodegenError>,
    res: Result<(Seq<IrInstr>, VReg, LowerState), Seq<char>>,
    ir0: Seq<IrInstr>,
    ir1: Seq<IrInstr>,
    st1: LowerState,
) -> bool {
    match res {
        Ok((o, v, s)) => r is Ok && r->Ok_0 == v && ir1 == ir0 + o && st1 == s,
        Err(m) => r is Err && r->Err_0.message@ == m,
    }
}

pub open spec fn stmt_post(
    r: Result<(), CodegenError>,
    res: Result<(Seq<IrInstr>, LowerState), Seq<char>>,
    ir0: Seq<IrInstr>,
    ir1: Seq<IrInstr>,
    st1: LowerState,
) -> bool {
    match res {
        Ok((o, s)) => r is Ok && ir1 == ir0 + o && st1 == s,
        Err(m) => r is Err && r->Err_0.message@ == m,
    }
}

pub proof fn lemma_lower_stmts_error_extends(ss: Seq<StatementNode>, st: LowerState, i: int)
    requires
        0 <= i <= ss.len(),
        lower_stmts(ss.subrange(0, i), st) is Err,
    ensures
        lower_stmts(ss, st) == lower_stmts(ss.subrange(0, i), st),
    decreases ss.len(),
{
    if i < ss.len() {
        assert(ss.drop_last().subrange(0, i) =~= ss.subrange(0, i));
        lemma_lower_stmts_error_extends(ss.drop_last(), st, i);
    } else {
        assert(ss.subrange(0, i) =~= ss);
    }
}

pub proof fn lemma_lower_args_error_extends(args: Seq<ExpressionNode>, st: LowerState, i: int)
    requires
        0 <= i <= args.len(),
        lower_args(args.subrange(0, i), st) is Err,
    ensures
        lower_args(args, st) == lower_args(args.subrange(0, i), st),
    decreases args.len(),
{
    if i < args.len() {
        assert(args.drop_last().subrange(0, i) =~= args.subrange(0, i));
        lemma_lower_args_error_extends(args.drop_last(), st, i);
    } else {
        assert(args.subrange(0, i) =~= args);
    }
}

pub proof fn lemma_lower_others_error_extends(items: Seq<CstNode>, st: LowerState, i: int)
    requires
        0 <= i <= items.len(),
        lower_others(items.subrange(0, i), st) is Err,
    ensures
        lower_others(items, st) == lower_others(items.subrange(0, i), st),
    decreases items.len(),
{
    if i < items.len() {
        assert(items.drop_last().subrange(0, i) =~= items.subrange(0, i));
        lemma_lower_others_error_extends(items.drop_last(), st, i);
    } else {
        assert(items.subrange(0, i) =~= items);
    }
}

pub open spec fn name_view<T>(entries: Seq<(String, T)>) -> Seq<(Seq<char>, T)> {
    entries.map_values(|e: (String, T)| (e.0@, e.1))
}

/// The lowering pass: a growing instruction buffer, the register and label
/// counters, the current function's variables and the function entry labels.
pub struct Codegen {
    instructions: Vec<Instruction>,
    vreg_counter: u32,
    label_counter: u32,
    variables: Vec<(String, VReg)>,
    function_labels: Vec<(String, LabelId)>,
}

impl Codegen {
    /// The instructions emitted so far.
    pub closed spec fn ir(&self) -> Seq<IrInstr> {
        ir_view(self.instructions@)
    }

    /// Counters, variable bindings and function labels.
    pub closed spec fn state(&self) -> LowerState {
        LowerState {
            vregs: self.vreg_counter as nat,
            labels: self.label_counter as nat,
            vars: name_view(self.variables@),
            functions: name_view(self.function_labels@),
        }
    }

    pub fn new() -> (r: Self)
        ensures
            r.ir() == Seq::<IrInstr>::empty(),
            r.state() == initial_state(),
    {
        let r = Codegen {
            instructions: Vec::new(),
            vreg_counter: 0,
            label_counter: 0,
            variables: Vec::new(),
            function_labels: Vec::new(),
        };
        assert(r.ir() =~= Seq::<IrInstr>::empty());
        assert(r.state().vars =~= Seq::<(Seq<char>, VReg)>::empty());
        assert(r.state().functions =~= Seq::<(Seq<char>, LabelId)>::empty());
        r
    }

    /// Function name to entry label, in the order the functions were lowered.
    pub fn function_labels(&self) -> (r: &Vec<(String, LabelId)>)
        ensures
            name_view(r@) == self.state().functions,
    {
        &self.function_labels
    }

    fn next_vreg(&mut self) -> (r: Result<VReg, CodegenError>)
        ensures
            match fresh_vreg(old(self).state()) {
                Ok((v, s)) => r is Ok && r->Ok_0 == v && final(self).state() == s,
                Err(m) => r is Err && r->Err_0.message@ == m,
            },
            final(self).ir() == old(self).ir(),
    {
        if self.vreg_counter == u32::MAX {
            return Err(CodegenError { message: String::from_str("Too many virtual registers") });
        }
        let vreg = VReg(self.vreg_counter);
        self.vreg_counter = self.vreg_counter + 1;
        Ok(vreg)
    }

    fn next_label(&mut self) -> (r: Result<LabelId, CodegenError>)
        ensures
            match fresh_label(old(self).state()) {
                Ok((l, s)) => r is Ok && r->Ok_0 == l && final(self).state() == s,
                Err(m) => r is Err && r->Err_0.message@ == m,
            },
            final(self).ir() == old(self).ir(),
    {
        if self.label_counter == START_LABEL {
            self.label_counter = START_LABEL + 1;
        }
        if self.label_counter == u32::MAX {
            return Err(CodegenError { message: String::from_str("Too many labels") });
        }
        let label = LabelId(self.label_counter);
        self.label_counter = self.label_counter + 1;
        Ok(label)
    }

    fn emit(&mut self, instr: Instruction)
        ensures
            final(self).ir() == old(self).ir() + seq![instr@],
            final(self).state() == old(self).state(),
    {
        let ghost v = instr@;
        self.instructions.push(instr);
        assert(self.ir() =~= old(self).ir() + seq![v]);
    }

    fn bind_variable(&mut self, name: String, v: VReg)
        ensures
            final(self).state() == bind(old(self).state(), name@, v),
            final(self).ir() == old(self).ir(),
    {
        let ghost n = name@;
        self.variables.push((name, v));
        assert(self.state().vars =~= old(self).state().vars.push((n, v)));
    }

    fn lookup_variable(&self, name: &String) -> (r: Option<VReg>)
        ensures
            r == lookup_binding(self.state().vars, name@),
    {
        let ghost vars = self.state().vars;
        let mut i: usize = self.variables.len();
        assert(vars.subrange(0, i as int) =~= vars);
        while i > 0
            invariant
                i <= vars.len(),
                vars == self.state().vars,
                lookup_binding(vars, name@) == lookup_binding(vars.subrange(0, i as int), name@),
            decreases i,
        {
            let ghost pre = vars.subrange(0, i as int);
            assert(pre.drop_last() =~= vars.subrange(0, i - 1));
            assert(pre.last() == vars[i - 1]);
            if self.variables[i - 1].0 == *name {
                return Some(self.variables[i - 1].1);
            }
            i = i - 1;
        }
        None
    }

    fn emit_zero(&mut self) -> (r: Result<VReg, CodegenError>)
        ensures
            expr_post(r, lower_zero(old(self).state()), old(self).ir(), final(self).ir(), final(self).state()),
    {
        let z = match self.next_vreg() {
            Ok(x) => x,
            Err(e) => {
                return Err(e);
            },
        };
        self.emit(Instruction::Copy { dest: z, src: Value::Immediate(0) });
        assert(self.ir() =~= old(self).ir() + lower_zero(old(self).state())->Ok_0.0);
        Ok(z)
    }
}

impl Default for Codegen {
    fn default() -> (r: Self)
        ensures
            r.ir() == Seq::<IrInstr>::empty(),
            r.state() == initial_state(),
    {
        Self::new()
    }
}

impl Codegen {
    fn generate_expression(&mut self, expr: &ExpressionNode) -> (r: Result<VReg, CodegenError>)
        ensures
            expr_post(r, lower_expr(*expr, old(self).state()), old(self).ir(), final(self).ir(), final(self).state()),
        decreases *expr,
    {
        match expr {
            ExpressionNode::Literal(token) => {
                if let TokenKind::Integer(value) = &token.kind {
                    let dest = match self.next_vreg() {
                        Ok(x) => x,
                        Err(e) => {
                            return Err(e);
                        },
                    };
                    self.emit(Instruction::Copy { dest, src: Value::Immediate(*value) });
                    assert(self.ir() =~= old(self).ir() + lower_expr(*expr, old(self).state())->Ok_0.0);
                    Ok(dest)
                } else {
                    Err(CodegenError { message: String::from_str("Invalid literal token") })
                }
            },
            ExpressionNode::Identifier(token) => {
                if let TokenKind::Ident(name) = &token.kind {
                    match self.lookup_variable(name) {
                        Some(var_vreg) => {
                            let dest = match self.next_vreg() {
                                Ok(x) => x,
                                Err(e) => {
                                    return Err(e);
                                },
                            };
                            self.emit(Instruction::Copy { dest, src: Value::VReg(var_vreg) });
                            assert(self.ir() =~= old(self).ir() + lower_expr(*expr, old(self).state())->Ok_0.0);
                            Ok(dest)
                        },
                        None => Err(CodegenError { message: join("Undefined variable: ", name.as_str()) }),
                    }
                } else {
                    Err(CodegenError { message: String::from_str("Invalid identifier token") })
                }
            },
            ExpressionNode::Binary(binary_expr) => {
                let dest = match self.next_vreg() {
                    Ok(x) => x,
                    Err(e) => {
                        return Err(e);
                    },
                };
                let op = match &binary_expr.operator.kind {
                    TokenKind::Plus => BinOp::Add,
                    TokenKind::Minus => BinOp::Sub,
                    TokenKind::Star => BinOp::Mul,
                    TokenKind::Slash => BinOp::Div,
                    TokenKind::LessEqual => BinOp::Le,
                    TokenKind::Greater => BinOp::Gt,
                    _ => {
                        let m = join("Unsupported operator: ", binary_expr.operator.kind.name());
                        return Err(CodegenError { message: m });
                    },
                };
                let rhs_has_call = self.expression_contains_call(&binary_expr.right);
                let lhs_vreg = match self.generate_expression(&binary_expr.left) {
                    Ok(x) => x,
                    Err(e) => {
                        return Err(e);
                    },
                };
                if rhs_has_call {
                    self.emit(Instruction::Push { src: lhs_vreg });
                    let rhs_vreg = match self.generate_expression(&binary_expr.right) {
                        Ok(x) => x,
                        Err(e) => {
                            return Err(e);
                        },
                    };
                    let lhs_restored = match self.next_vreg() {
                        Ok(x) => x,
                        Err(e) => {
                            return Err(e);
                        },
                    };
                    self.emit(Instruction::Pop { dest: lhs_restored });
                    self.emit(
                        Instruction::BinaryOp {
                            dest,
                            lhs: Value::VReg(lhs_restored),
                            rhs: Value::VReg(rhs_vreg),
                            op,
                        },
                    );
                } else {
                    let rhs_vreg = match self.generate_expression(&binary_expr.right) {
                        Ok(x) => x,
                        Err(e) => {
                            return Err(e);
                        },
                    };
                    self.emit(
                        Instruction::BinaryOp {
                            dest,
                            lhs: Value::VReg(lhs_vreg),
                            rhs: Value::VReg(rhs_vreg),
                            op,
                        },
                    );
                }
                assert(self.ir() =~= old(self).ir() + lower_expr(*expr, old(self).state())->Ok_0.0);
                Ok(dest)
            },
            ExpressionNode::Call(call_expr) => {
                let arg_vregs = match self.generate_args(&call_expr.args) {
                    Ok(x) => x,
                    Err(e) => {
                        return Err(e);
                    },
                };
                if let ExpressionNode::Identifier(func_token) = &*call_expr.function {
                    if let TokenKind::Ident(func_name) = &func_token.kind {
                        let dest = match self.next_vreg() {
                            Ok(x) => x,
                            Err(e) => {
                                return Err(e);
                            },
                        };
                        self.emit(
                            Instruction::Call {
                                dest: Some(dest),
                                function: func_name.clone(),
                                args: arg_vregs,
                            },
                        );
                        assert(self.ir() =~= old(self).ir() + lower_expr(*expr, old(self).state())->Ok_0.0);
                        Ok(dest)
                    } else {
                        Err(CodegenError { message: String::from_str("Invalid function name") })
                    }
                } else {
                    Err(
                        CodegenError {
                            message: String::from_str("Function calls must use identifiers"),
                        },
                    )
                }
            },
            ExpressionNode::If(if_stmt) => self.generate_if(if_stmt),
            ExpressionNode::While(while_stmt) => self.generate_while(while_stmt),
        }
    }

    fn generate_args(&mut self, args: &Vec<ExpressionNode>) -> (r: Result<Vec<VReg>, CodegenError>)
        ensures
            match lower_args(args@, old(self).state()) {
                Ok((o, vs, s)) => r is Ok && r->Ok_0@ == vs && final(self).ir() == old(self).ir() + o
                    && final(self).state() == s,
                Err(m) => r is Err && r->Err_0.message@ == m,
            },
        decreases args,
    {
        let mut out: Vec<VReg> = Vec::new();
        let mut i: usize = 0;
        assert(args@.subrange(0, 0) =~= Seq::<ExpressionNode>::empty());
        while i < args.len()
            invariant
                i <= args.len(),
                lower_args(args@.subrange(0, i as int), old(self).state()) matches Ok((o, vs, s)) && out@ == vs
                    && self.ir() == old(self).ir() + o && self.state() == s,
            decreases args.len() - i,
        {
            let ghost pre = args@.subrange(0, i as int);
            assert(args@.subrange(0, i + 1).drop_last() =~= pre);
            assert(args@.subrange(0, i + 1).last() == args@[i as int]);
            let ghost ir_before = self.ir();
            let v = match self.generate_expression(&args[i]) {
                Ok(v) => v,
                Err(e) => {
                    proof {
                        lemma_lower_args_error_extends(args@, old(self).state(), i + 1);
                    }
                    return Err(e);
                },
            };
            out.push(v);
            i = i + 1;
            assert(self.ir() =~= old(self).ir() + lower_args(args@.subrange(0, i as int), old(self).state())->Ok_0.0);
        }
        assert(args@.subrange(0, args@.len() as int) =~= args@);
        Ok(out)
    }

    fn generate_if(&mut self, if_stmt: &IfStatementNode) -> (r: Result<VReg, CodegenError>)
        ensures
            expr_post(r, lower_if(*if_stmt, old(self).state()), old(self).ir(), final(self).ir(), final(self).state()),
        decreases *if_stmt,
    {
        let else_label = match self.next_label() {
            Ok(x) => x,
            Err(e) => {
                return Err(e);
            },
        };
        let end_label = match self.next_label() {
            Ok(x) => x,
            Err(e) => {
                return Err(e);
            },
        };
        let result_vreg = match self.next_vreg() {
            Ok(x) => x,
            Err(e) => {
                return Err(e);
            },
        };
        let condition_vreg = match self.generate_expression(&if_stmt.condition) {
            Ok(x) => x,
            Err(e) => {
                return Err(e);
            },
        };
        let then_label = match self.next_label() {
            Ok(x) => x,
            Err(e) => {
                return Err(e);
            },
        };
        self.emit(
            Instruction::Branch {
                condition: condition_vreg,
                true_label: then_label,
                false_label: else_label,
            },
        );
        self.emit(Instruction::Label(then_label));
        let then_result = match self.generate_block_value(&if_stmt.then_block) {
            Ok(x) => x,
            Err(e) => {
                return Err(e);
            },
        };
        self.emit(Instruction::Copy { dest: result_vreg, src: Value::VReg(then_result) });
        self.emit(Instruction::Jump(end_label));
        self.emit(Instruction::Label(else_label));
        let else_result = match self.generate_else(&if_stmt.else_clause) {
            Ok(x) => x,
            Err(e) => {
                return Err(e);
            },
        };
        self.emit(Instruction::Copy { dest: result_vreg, src: Value::VReg(else_result) });
        self.emit(Instruction::Label(end_label));
        assert(self.ir() =~= old(self).ir() + lower_if(*if_stmt, old(self).state())->Ok_0.0);
        Ok(result_vreg)
    }

    fn generate_else(&mut self, else_clause: &Option<ElseClauseNode>) -> (r: Result<VReg, CodegenError>)
        ensures
            expr_post(r, lower_else(*else_clause, old(self).state()), old(self).ir(), final(self).ir(), final(self).state()),
        decreases *else_clause,
    {
        match else_clause {
            None => self.emit_zero(),
            Some(clause) => match &clause.body {
                ElseBodyNode::Block(block) => self.generate_block_value(block),
                ElseBodyNode::If(nested_if) => self.generate_if(nested_if),
            },
        }
    }

    fn generate_block_value(&mut self, block: &BlockNode) -> (r: Result<VReg, CodegenError>)
        ensures
            expr_post(r, lower_block_value(*block, old(self).state()), old(self).ir(), final(self).ir(), final(self).state()),
        decreases *block,
    {
        match self.generate_statements(&block.statements) {
            Ok(_) => {},
            Err(e) => {
                return Err(e);
            },
        }
        let v = match &block.final_expr {
            Some(e) => match self.generate_expression(e) {
                Ok(x) => x,
                Err(e) => {
                    return Err(e);
                },
            },
            None => match self.emit_zero() {
                Ok(x) => x,
                Err(e) => {
                    return Err(e);
                },
            },
        };
        assert(self.ir() =~= old(self).ir() + lower_block_value(*block, old(self).state())->Ok_0.0);
        Ok(v)
    }

    fn generate_while(&mut self, while_stmt: &WhileStatementNode) -> (r: Result<VReg, CodegenError>)
        ensures
            expr_post(r, lower_while(*while_stmt, old(self).state()), old(self).ir(), final(self).ir(), final(self).state()),
        decreases *while_stmt,
    {
        let loop_start = match self.next_label() {
            Ok(x) => x,
            Err(e) => {
                return Err(e);
            },
        };
        let loop_end = match self.next_label() {
            Ok(x) => x,
            Err(e) => {
                return Err(e);
            },
        };
        self.emit(Instruction::Label(loop_start));
        let condition_vreg = match self.generate_expression(&while_stmt.condition) {
            Ok(x) => x,
            Err(e) => {
                return Err(e);
            },
        };
        let body_label = match self.next_label() {
            Ok(x) => x,
            Err(e) => {
                return Err(e);
            },
        };
        self.emit(
            Instruction::Branch {
                condition: condition_vreg,
                true_label: body_label,
                false_label: loop_end,
            },
        );
        self.emit(Instruction::Label(body_label));
        match self.generate_statements(&while_stmt.body.statements) {
            Ok(_) => {},
            Err(e) => {
                return Err(e);
            },
        }
        if let Some(final_expr) = &while_stmt.body.final_expr {
            let _value = match self.generate_expression(final_expr) {
                Ok(x) => x,
                Err(e) => {
                    return Err(e);
                },
            };
        }
        self.emit(Instruction::Jump(loop_start));
        self.emit(Instruction::Label(loop_end));
        let z = match self.emit_zero() {
            Ok(x) => x,
            Err(e) => {
                return Err(e);
            },
        };
        assert(self.ir() =~= old(self).ir() + lower_while(*while_stmt, old(self).state())->Ok_0.0);
        Ok(z)
    }

    fn generate_statements(&mut self, stmts: &Vec<StatementNode>) -> (r: Result<(), CodegenError>)
        ensures
            stmt_post(r, lower_stmts(stmts@, old(self).state()), old(self).ir(), final(self).ir(), final(self).state()),
        decreases stmts,
    {
        let mut i: usize = 0;
        assert(stmts@.subrange(0, 0) =~= Seq::<StatementNode>::empty());
        while i < stmts.len()
            invariant
                i <= stmts.len(),
                lower_stmts(stmts@.subrange(0, i as int), old(self).state()) matches Ok((o, s))
                    && self.ir() == old(self).ir() + o && self.state() == s,
            decreases stmts.len() - i,
        {
            let ghost pre = stmts@.subrange(0, i as int);
            assert(stmts@.subrange(0, i + 1).drop_last() =~= pre);
            assert(stmts@.subrange(0, i + 1).last() == stmts@[i as int]);
            match self.generate_statement(&stmts[i]) {
                Ok(()) => {},
                Err(e) => {
                    proof {
                        lemma_lower_stmts_error_extends(stmts@, old(self).state(), i + 1);
                    }
                    return Err(e);
                },
            }
            i = i + 1;
            assert(self.ir() =~= old(self).ir() + lower_stmts(stmts@.subrange(0, i as int), old(self).state())->Ok_0.0);
        }
        assert(stmts@.subrange(0, stmts@.len() as int) =~= stmts@);
        Ok(())
    }

    fn generate_statement(&mut self, stmt: &StatementNode) -> (r: Result<(), CodegenError>)
        ensures
            stmt_post(r, lower_stmt(*stmt, old(self).state()), old(self).ir(), final(self).ir(), final(self).state()),
        decreases *stmt,
    {
        match stmt {
            StatementNode::Expression(expr_stmt) => {
                let _value = match self.generate_expression(&expr_stmt.expression) {
                    Ok(x) => x,
                    Err(e) => {
                        return Err(e);
                    },
                };
                Ok(())
            },
            StatementNode::Let(let_stmt) => {
                let value_vreg = match self.generate_expression(&let_stmt.value) {
                    Ok(x) => x,
                    Err(e) => {
                        return Err(e);
                    },
                };
                if let TokenKind::Ident(var_name) = &let_stmt.name.kind {
                    self.bind_variable(var_name.clone(), value_vreg);
                    Ok(())
                } else {
                    Err(
                        CodegenError {
                            message: String::from_str("Invalid variable name in let statement"),
                        },
                    )
                }
            },
            StatementNode::Assign(assign_stmt) => {
                let value_vreg = match self.generate_expression(&assign_stmt.value) {
                    Ok(x) => x,
                    Err(e) => {
                        return Err(e);
                    },
                };
                if let TokenKind::Ident(var_name) = &assign_stmt.name.kind {
                    if self.lookup_variable(var_name).is_some() {
                        self.bind_variable(var_name.clone(), value_vreg);
                        Ok(())
                    } else {
                        Err(
                            CodegenError {
                                message: join(
                                    "Undefined variable in assignment: ",
                                    var_name.as_str(),
                                ),
                            },
                        )
                    }
                } else {
                    Err(
                        CodegenError {
                            message: String::from_str("Invalid variable name in assignment"),
                        },
                    )
                }
            },
        }
    }

    fn expression_contains_call(&self, expr: &ExpressionNode) -> (r: bool)
        ensures
            r == contains_call(*expr),
        decreases *expr,
    {
        match expr {
            ExpressionNode::Call(_) => true,
            ExpressionNode::Binary(binary_expr) => {
                self.expression_contains_call(&binary_expr.left)
                    || self.expression_contains_call(&binary_expr.right)
            },
            ExpressionNode::If(if_expr) => self.if_contains_call(if_expr),
            ExpressionNode::While(while_expr) => {
                self.expression_contains_call(&while_expr.condition) || self.block_contains_call(
                    &while_expr.body,
                )
            },
            ExpressionNode::Literal(_) | ExpressionNode::Identifier(_) => false,
        }
    }

    fn if_contains_call(&self, if_expr: &IfStatementNode) -> (r: bool)
        ensures
            r == if_contains_call(*if_expr),
        decreases *if_expr,
    {
        if self.expression_contains_call(&if_expr.condition) {
            return true;
        }
        if self.block_contains_call(&if_expr.then_block) {
            return true;
        }
        match &if_expr.else_clause {
            Some(else_clause) => match &else_clause.body {
                ElseBodyNode::Block(block) => self.block_contains_call(block),
                ElseBodyNode::If(nested_if) => self.if_contains_call(nested_if),
            },
            None => false,
        }
    }

    fn block_contains_call(&self, block: &BlockNode) -> (r: bool)
        ensures
            r == block_contains_call(*block),
        decreases *block,
    {
        if self.statements_contain_call(&block.statements) {
            return true;
        }
        if let Some(final_expr) = &block.final_expr {
            return self.expression_contains_call(final_expr);
        }
        false
    }

    fn statements_contain_call(&self, stmts: &Vec<StatementNode>) -> (r: bool)
        ensures
            r == stmts_contain_call(stmts@),
        decreases stmts,
    {
        let mut i: usize = 0;
        assert(stmts@.subrange(0, 0) =~= Seq::<StatementNode>::empty());
        while i < stmts.len()
            invariant
                i <= stmts.len(),
                !stmts_contain_call(stmts@.subrange(0, i as int)),
            decreases stmts.len() - i,
        {
            assert(stmts@.subrange(0, i + 1).drop_last() =~= stmts@.subrange(0, i as int));
            if self.statement_contains_call(&stmts[i]) {
                proof {
                    lemma_stmts_call_extends(stmts@, i + 1);
                }
                return true;
            }
            i = i + 1;
        }
        assert(stmts@.subrange(0, stmts@.len() as int) =~= stmts@);
        false
    }

    fn statement_contains_call(&self, stmt: &StatementNode) -> (r: bool)
        ensures
            r == stmt_contains_call(*stmt),
        decreases *stmt,
    {
        match stmt {
            StatementNode::Expression(expr_stmt) => self.expression_contains_call(&expr_stmt.expression),
            StatementNode::Let(let_stmt) => self.expression_contains_call(&let_stmt.value),
            StatementNode::Assign(assign_stmt) => self.expression_contains_call(&assign_stmt.value),
        }
    }
}

pub proof fn lemma_stmts_call_extends(ss: Seq<StatementNode>, i: int)
    requires
        0 <= i <= ss.len(),
        stmts_contain_call(ss.subrange(0, i)),
    ensures
        stmts_contain_call(ss),
    decreases ss.len(),
{
    if i < ss.len() {
        assert(ss.drop_last().subrange(0, i) =~= ss.subrange(0, i));
        lemma_stmts_call_extends(ss.drop_last(), i);
    } else {
        assert(ss.subrange(0, i) =~= ss);
    }
}

impl Codegen {
    /// Lowers a whole program: the entry sequence, then `main`, then every
    /// other function in source order. Returns every instruction emitted.
    /// The scope table of the front end is accepted but not consulted:
    /// lowering keeps its own bindings.
    pub fn generate(&mut self, ast: &CstRoot, _scope: &Scope) -> (r: Result<Vec<Instruction>, CodegenError>)
        ensures
            match lower_program(ast.items@, old(self).state()) {
                Ok((o, s)) => {
                    &&& r is Ok
                    &&& ir_view(r->Ok_0@) == old(self).ir() + o
                    &&& final(self).ir() == old(self).ir() + o
                    &&& final(self).state() == s
                },
                Err(m) => r is Err && r->Err_0.message@ == m,
            },
    {
        let ghost items = ast.items@;
        match self.emit_prologue() {
            Ok(()) => {},
            Err(e) => {
                return Err(e);
            },
        }
        let ghost pr = lower_prologue(old(self).state())->Ok_0;
        assert(self.ir() == old(self).ir() + pr.0 && self.state() == pr.1);
        let main = String::from_str("main");
        proof {
            reveal_strlit("main");
        }
        let mut i: usize = 0;
        let mut main_index: Option<usize> = None;
        assert(items.subrange(0, 0) =~= Seq::<CstNode>::empty());
        while i < ast.items.len()
            invariant
                i <= ast.items.len(),
                items == ast.items@,
                main@ == "main"@,
                main_index is None ==> first_main(items.subrange(0, i as int)) is None,
                main_index matches Some(k) ==> first_main(items) == Some(k as int) && k < items.len(),
            decreases ast.items.len() - i,
        {
            assert(items.subrange(0, i + 1).drop_last() =~= items.subrange(0, i as int));
            assert(items.subrange(0, i + 1).last() == items[i as int]);
            if main_index.is_none() {
                if let CstNode::Function(func) = &ast.items[i] {
                    if let TokenKind::Ident(name) = &func.name.kind {
                        if *name == main {
                            main_index = Some(i);
                            proof {
                                lemma_first_main_extends(items, i + 1);
                            }
                        }
                    }
                }
            }
            i = i + 1;
        }
        assert(items.subrange(0, items.len() as int) =~= items);
        let k = match main_index {
            Some(k) => k,
            None => {
                return Err(CodegenError { message: String::from_str("No main function found") });
            },
        };
        assert(is_main_function(items[k as int])) by {
            lemma_first_main_found(items);
        }
        match &ast.items[k] {
            CstNode::Function(func) => {
                match self.generate_function(func) {
                    Ok(()) => {},
                    Err(e) => {
                        return Err(e);
                    },
                }
            },
            _ => {},
        }
        let ghost fm = lower_function(*items[k as int]->Function_0, pr.1)->Ok_0;
        assert(self.ir() == old(self).ir() + pr.0 + fm.0 && self.state() == fm.1);
        let ghost after_main = self.state();
        let ghost ir_main = self.ir();
        let mut j: usize = 0;
        assert(items.subrange(0, 0) =~= Seq::<CstNode>::empty());
        while j < ast.items.len()
            invariant
                j <= ast.items.len(),
                items == ast.items@,
                main@ == "main"@,
                lower_prologue(old(self).state()) == Ok::<(Seq<IrInstr>, LowerState), Seq<char>>(pr),
                first_main(items) == Some(k as int),
                lower_function(*items[k as int]->Function_0, pr.1) == Ok::<
                    (Seq<IrInstr>, LowerState),
                    Seq<char>,
                >(fm),
                after_main == fm.1,
                lower_others(items.subrange(0, j as int), after_main) matches Ok((o, s))
                    && self.ir() == ir_main + o && self.state() == s,
            decreases ast.items.len() - j,
        {
            let ghost pre = items.subrange(0, j as int);
            assert(items.subrange(0, j + 1).drop_last() =~= pre);
            assert(items.subrange(0, j + 1).last() == items[j as int]);
            if let CstNode::Function(func) = &ast.items[j] {
                if let TokenKind::Ident(name) = &func.name.kind {
                    if *name != main {
                        match self.generate_function(func) {
                            Ok(()) => {},
                            Err(e) => {
                                proof {
                                    lemma_lower_others_error_extends(items, after_main, j + 1);
                                    assert(after_main == fm.1);
                                    assert(lower_program(items, old(self).state()) == lower_others(
                                        items,
                                        after_main,
                                    ));
                                }
                                return Err(e);
                            },
                        }
                    }
                }
            }
            j = j + 1;
            assert(self.ir() =~= ir_main + lower_others(items.subrange(0, j as int), after_main)->Ok_0.0);
        }
        assert(items.subrange(0, items.len() as int) =~= items);
        self.emit_epilogue();
        let ghost oo = lower_others(items, after_main)->Ok_0;
        assert(self.ir() =~= old(self).ir() + (pr.0 + fm.0 + oo.0));
        Ok(self.copy_instructions())
    }

    /// A copy of every instruction emitted so far.
    fn copy_instructions(&self) -> (r: Vec<Instruction>)
        ensures
            ir_view(r@) == self.ir(),
    {
        let mut out: Vec<Instruction> = Vec::new();
        let mut i: usize = 0;
        while i < self.instructions.len()
            invariant
                i <= self.instructions@.len(),
                out@.len() == i,
                forall|k: int| 0 <= k < i ==> (#[trigger] out@[k])@ == self.instructions@[k]@,
            decreases self.instructions@.len() - i,
        {
            out.push(self.instructions[i].duplicate());
            i = i + 1;
        }
        assert(ir_view(out@) =~= self.ir());
        out
    }

    fn emit_prologue(&mut self) -> (r: Result<(), CodegenError>)
        ensures
            stmt_post(r, lower_prologue(old(self).state()), old(self).ir(), final(self).ir(), final(self).state()),
    {
        self.emit(Instruction::Label(LabelId(START_LABEL)));
        let main_result = match self.next_vreg() {
            Ok(x) => x,
            Err(e) => {
                return Err(e);
            },
        };
        proof {
            reveal_strlit("main");
        }
        let no_args: Vec<VReg> = Vec::new();
        assert(no_args@ =~= Seq::<VReg>::empty());
        self.emit(
            Instruction::Call {
                dest: Some(main_result),
                function: String::from_str("main"),
                args: no_args,
            },
        );
        let exit_code = match self.next_vreg() {
            Ok(x) => x,
            Err(e) => {
                return Err(e);
            },
        };
        self.emit(Instruction::Copy { dest: exit_code, src: Value::VReg(main_result) });
        let syscall_num = match self.next_vreg() {
            Ok(x) => x,
            Err(e) => {
                return Err(e);
            },
        };
        self.emit(Instruction::Copy { dest: syscall_num, src: Value::Immediate(60) });
        let syscall_result = match self.next_vreg() {
            Ok(x) => x,
            Err(e) => {
                return Err(e);
            },
        };
        let mut exit_args: Vec<VReg> = Vec::new();
        exit_args.push(exit_code);
        assert(exit_args@ =~= seq![exit_code]);
        self.emit(Instruction::Syscall { result: syscall_result, syscall_num, args: exit_args });
        assert(self.ir() =~= old(self).ir() + lower_prologue(old(self).state())->Ok_0.0);
        Ok(())
    }

    /// Code that follows the last function; the program needs none.
    fn emit_epilogue(&mut self)
        ensures
            final(self).ir() == old(self).ir(),
            final(self).state() == old(self).state(),
    {
    }

    fn generate_function(&mut self, func: &FunctionNode) -> (r: Result<(), CodegenError>)
        ensures
            stmt_post(r, lower_function(*func, old(self).state()), old(self).ir(), final(self).ir(), final(self).state()),
    {
        if let TokenKind::Ident(name) = &func.name.kind {
            let func_label = match self.next_label() {
                Ok(x) => x,
                Err(e) => {
                    return Err(e);
                },
            };
            self.emit(Instruction::Label(func_label));
            let ghost fs = self.state().functions;
            let ghost n = name@;
            self.function_labels.push((name.clone(), func_label));
            assert(self.state().functions =~= fs.push((n, func_label)));
        }
        if func.param_list.params.len() > 0 {
            if let TokenKind::Ident(param_name) = &func.param_list.params[0].kind {
                let param_vreg = match self.next_vreg() {
                    Ok(x) => x,
                    Err(e) => {
                        return Err(e);
                    },
                };
                self.bind_variable(param_name.clone(), param_vreg);
                self.emit(
                    Instruction::Copy {
                        dest: param_vreg,
                        src: Value::PhysicalReg(Register::Rdi),
                    },
                );
            }
        }
        match self.generate_statements(&func.body.statements) {
            Ok(_) => {},
            Err(e) => {
                return Err(e);
            },
        }
        let return_vreg = match &func.body.final_expr {
            Some(final_expr) => {
                let v = match self.generate_expression(final_expr) {
                    Ok(x) => x,
                    Err(e) => {
                        return Err(e);
                    },
                };
                Some(v)
            },
            None => None,
        };
        self.emit(Instruction::Return { value: return_vreg });
        self.variables = Vec::new();
        assert(self.state().vars =~= Seq::<(Seq<char>, VReg)>::empty());
        assert(self.ir() =~= old(self).ir() + lower_function(*func, old(self).state())->Ok_0.0);
        Ok(())
    }
}

pub proof fn lemma_first_main_found(items: Seq<CstNode>)
    requires
        first_main(items) is Some,
    ensures
        0 <= first_main(items)->Some_0 < items.len(),
        is_main_function(items[first_main(items)->Some_0]),
    decreases items.len(),
{
    if items.len() > 0 {
        match first_main(items.drop_last()) {
            Some(k) => {
                lemma_first_main_found(items.drop_last());
                assert(items.drop_last()[k] == items[k]);
            },
            None => {},
        }
    }
}

pub proof fn lemma_first_main_extends(items: Seq<CstNode>, i: int)
    requires
        0 <= i <= items.len(),
        first_main(items.subrange(0, i)) is Some,
    ensures
        first_main(items) == first_main(items.subrange(0, i)),
    decreases items.len(),
{
    if i < items.len() {
        assert(items.drop_last().subrange(0, i) =~= items.subrange(0, i));
        lemma_first_main_extends(items.drop_last(), i);
    } else {
        assert(items.subrange(0, i) =~= items);
    }
}

} // verus!

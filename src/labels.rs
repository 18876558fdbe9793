//! Every label that lowered code branches to is defined in that code.
use crate::ast::{BlockNode, CstNode, ElseBodyNode, ElseClauseNode, ExpressionNode, FunctionNode, IfStatementNode, StatementNode, WhileStatementNode};
use crate::ir::{IrInstr, LabelId, defines_label, label_targets, labels_closed};
use crate::lower::{
    LowerState, function_entry, function_param, lower_args, lower_block_value, lower_else,
    lower_expr, lower_function, lower_if, lower_opt_expr, lower_others, lower_program,
    lower_prologue, lower_stmt, lower_stmts, lower_while, lower_zero,
};
use vstd::prelude::*;

verus! {

broadcast use vstd::std_specs::vec::group_vec_axioms, vstd::seq::group_seq_axioms;

/// Labels that some instruction of `s` branches to.
pub open spec fn targets(s: Seq<IrInstr>) -> Set<LabelId> {
    Set::new(
        |l: LabelId|
            exists|i: int, k: int|
                0 <= i < s.len() && 0 <= k < label_targets(s[i]).len() && label_targets(s[i])[k]
                    == l,
    )
}

/// Labels that `s` defines.
pub open spec fn defined(s: Seq<IrInstr>) -> Set<LabelId> {
    Set::new(|l: LabelId| defines_label(s, l))
}

pub open spec fn closed(s: Seq<IrInstr>) -> bool {
    targets(s).subset_of(defined(s))
}

pub proof fn lemma_closed_means_labels_closed(s: Seq<IrInstr>)
    requires
        closed(s),
    ensures
        labels_closed(s),
{
    assert forall|i: int, k: int|
        0 <= i < s.len() && 0 <= k < label_targets(#[trigger] s[i]).len() implies defines_label(
        s,
        #[trigger] label_targets(s[i])[k],
    ) by {
        assert(targets(s).contains(label_targets(s[i])[k]));
    }
}

pub proof fn lemma_concat(a: Seq<IrInstr>, b: Seq<IrInstr>)
    ensures
        targets(a + b) == targets(a).union(targets(b)),
        defined(a + b) == defined(a).union(defined(b)),
{
    assert forall|l: LabelId| #[trigger] targets(a + b).contains(l) implies targets(a).union(
        targets(b),
    ).contains(l) by {
        let (i, k) = choose|i: int, k: int|
            0 <= i < (a + b).len() && 0 <= k < label_targets((a + b)[i]).len() && label_targets(
                (a + b)[i],
            )[k] == l;
        if i < a.len() {
            assert((a + b)[i] == a[i]);
        } else {
            assert((a + b)[i] == b[i - a.len()]);
        }
    }
    assert forall|l: LabelId| #[trigger] targets(a).union(targets(b)).contains(l) implies targets(
        a + b,
    ).contains(l) by {
        if targets(a).contains(l) {
            let (i, k) = choose|i: int, k: int|
                0 <= i < a.len() && 0 <= k < label_targets(a[i]).len() && label_targets(a[i])[k]
                    == l;
            assert((a + b)[i] == a[i]);
        } else {
            let (i, k) = choose|i: int, k: int|
                0 <= i < b.len() && 0 <= k < label_targets(b[i]).len() && label_targets(b[i])[k]
                    == l;
            assert((a + b)[i + a.len()] == b[i]);
        }
    }
    assert(targets(a + b) =~= targets(a).union(targets(b)));
    assert forall|l: LabelId| #[trigger] defined(a + b).contains(l) implies defined(a).union(
        defined(b),
    ).contains(l) by {
        let j = choose|j: int| 0 <= j < (a + b).len() && (a + b)[j] == IrInstr::Label(l);
        if j < a.len() {
            assert((a + b)[j] == a[j]);
        } else {
            assert((a + b)[j] == b[j - a.len()]);
        }
    }
    assert forall|l: LabelId| #[trigger] defined(a).union(defined(b)).contains(l) implies defined(
        a + b,
    ).contains(l) by {
        if defined(a).contains(l) {
            let j = choose|j: int| 0 <= j < a.len() && a[j] == IrInstr::Label(l);
            assert((a + b)[j] == a[j]);
        } else {
            let j = choose|j: int| 0 <= j < b.len() && b[j] == IrInstr::Label(l);
            assert((a + b)[j + a.len()] == b[j]);
        }
    }
    assert(defined(a + b) =~= defined(a).union(defined(b)));
}

pub proof fn lemma_single(x: IrInstr)
    ensures
        targets(seq![x]) == label_targets(x).to_set(),
        defined(seq![x]) == match x {
            IrInstr::Label(l) => set![l],
            _ => Set::<LabelId>::empty(),
        },
{
    let s = seq![x];
    assert forall|l: LabelId| #[trigger] targets(s).contains(l) <==> label_targets(x).to_set().contains(l) by {
        if targets(s).contains(l) {
            let (i, k) = choose|i: int, k: int|
                0 <= i < s.len() && 0 <= k < label_targets(s[i]).len() && label_targets(s[i])[k]
                    == l;
            assert(label_targets(x)[k] == l);
        }
        if label_targets(x).to_set().contains(l) {
            let k = choose|k: int| 0 <= k < label_targets(x).len() && label_targets(x)[k] == l;
            assert(s[0] == x);
        }
    }
    assert(targets(s) =~= label_targets(x).to_set());
    let d = match x {
        IrInstr::Label(l) => set![l],
        _ => Set::<LabelId>::empty(),
    };
    assert forall|l: LabelId| #[trigger] defined(s).contains(l) <==> d.contains(l) by {
        if d.contains(l) {
            assert(s[0] == x);
        }
    }
    assert(defined(s) =~= d);
}

pub proof fn lemma_no_labels(x: IrInstr)
    requires
        label_targets(x).len() == 0,
        !(x is Label),
    ensures
        targets(seq![x]) == Set::<LabelId>::empty(),
        defined(seq![x]) == Set::<LabelId>::empty(),
{
    lemma_single(x);
    assert(label_targets(x).to_set() =~= Set::<LabelId>::empty());
}

pub proof fn lemma_empty_closed()
    ensures
        closed(Seq::<IrInstr>::empty()),
        targets(Seq::<IrInstr>::empty()) == Set::<LabelId>::empty(),
{
    assert(targets(Seq::<IrInstr>::empty()) =~= Set::<LabelId>::empty());
}

pub proof fn lemma_pair(a: IrInstr, b: IrInstr)
    ensures
        targets(seq![a, b]) == targets(seq![a]).union(targets(seq![b])),
        defined(seq![a, b]) == defined(seq![a]).union(defined(seq![b])),
{
    assert(seq![a, b] =~= seq![a] + seq![b]);
    lemma_concat(seq![a], seq![b]);
}

pub proof fn lemma_triple(a: IrInstr, b: IrInstr, c: IrInstr)
    ensures
        targets(seq![a, b, c]) == targets(seq![a]).union(targets(seq![b])).union(targets(seq![c])),
        defined(seq![a, b, c]) == defined(seq![a]).union(defined(seq![b])).union(defined(seq![c])),
{
    assert(seq![a, b, c] =~= seq![a, b] + seq![c]);
    lemma_concat(seq![a, b], seq![c]);
    lemma_pair(a, b);
}

/// The code of an expression defines every label it branches to.
pub proof fn lemma_expr_closed(e: ExpressionNode, st: LowerState)
    requires
        lower_expr(e, st) is Ok,
    ensures
        closed(lower_expr(e, st)->Ok_0.0),
    decreases e,
{
    let out = lower_expr(e, st)->Ok_0.0;
    match e {
        ExpressionNode::Literal(_) | ExpressionNode::Identifier(_) => {
            lemma_single(out[0]);
            assert(out =~= seq![out[0]]);
            assert(label_targets(out[0]).to_set() =~= Set::<LabelId>::empty());
        },
        ExpressionNode::Binary(b) => {
            let s1 = crate::lower::fresh_vreg(st)->Ok_0.1;
            let (o1, l, s2) = lower_expr(*b.left, s1)->Ok_0;
            let (o2, r, s3) = lower_expr(*b.right, s2)->Ok_0;
            lemma_expr_closed(*b.left, s1);
            lemma_expr_closed(*b.right, s2);
            if crate::lower::contains_call(*b.right) {
                let l2 = crate::lower::fresh_vreg(s3)->Ok_0.0;
                let tail = seq![out[out.len() - 2], out[out.len() - 1]];
                let push = seq![IrInstr::Push { src: l }];
                assert(out =~= o1 + push + o2 + tail);
                lemma_concat(o1, push);
                lemma_concat(o1 + push, o2);
                lemma_concat(o1 + push + o2, tail);
                lemma_no_labels(IrInstr::Push { src: l });
                lemma_no_labels(tail[0]);
                lemma_no_labels(tail[1]);
                lemma_pair(tail[0], tail[1]);
            } else {
                let tail = seq![out[out.len() - 1]];
                assert(out =~= o1 + o2 + tail);
                lemma_concat(o1, o2);
                lemma_concat(o1 + o2, tail);
                lemma_no_labels(tail[0]);
            }
        },
        ExpressionNode::Call(c) => {
            let (o, vs, s1) = lower_args(c.args@, st)->Ok_0;
            lemma_args_closed(c.args@, st);
            let tail = seq![out[out.len() - 1]];
            assert(out =~= o + tail);
            lemma_concat(o, tail);
            lemma_no_labels(tail[0]);
        },
        ExpressionNode::If(i) => {
            lemma_if_closed(*i, st);
        },
        ExpressionNode::While(w) => {
            lemma_while_closed(*w, st);
        },
    }
}

pub proof fn lemma_args_closed(args: Seq<ExpressionNode>, st: LowerState)
    requires
        lower_args(args, st) is Ok,
    ensures
        closed(lower_args(args, st)->Ok_0.0),
    decreases args,
{
    if args.len() == 0 {
        lemma_empty_closed();
    } else {
        let (o, vs, s1) = lower_args(args.drop_last(), st)->Ok_0;
        lemma_args_closed(args.drop_last(), st);
        lemma_expr_closed(args.last(), s1);
        let o2 = lower_expr(args.last(), s1)->Ok_0.0;
        lemma_concat(o, o2);
    }
}

pub proof fn lemma_zero_closed(st: LowerState)
    requires
        lower_zero(st) is Ok,
    ensures
        closed(lower_zero(st)->Ok_0.0),
{
    let out = lower_zero(st)->Ok_0.0;
    lemma_no_labels(out[0]);
    assert(out =~= seq![out[0]]);
}

pub proof fn lemma_if_closed(i: IfStatementNode, st: LowerState)
    requires
        lower_if(i, st) is Ok,
    ensures
        closed(lower_if(i, st)->Ok_0.0),
    decreases i,
{
    let (else_l, s1) = crate::lower::fresh_label(st)->Ok_0;
    let (end_l, s2) = crate::lower::fresh_label(s1)->Ok_0;
    let (res, s3) = crate::lower::fresh_vreg(s2)->Ok_0;
    let (oc, c, s4) = lower_expr(i.condition, s3)->Ok_0;
    let (then_l, s5) = crate::lower::fresh_label(s4)->Ok_0;
    let (ot, tv, s6) = lower_block_value(i.then_block, s5)->Ok_0;
    let (oe, ev, s7) = lower_else(i.else_clause, s6)->Ok_0;
    lemma_expr_closed(i.condition, s3);
    lemma_block_closed(i.then_block, s5);
    lemma_else_closed(i.else_clause, s6);
    let a = seq![
        IrInstr::Branch { condition: c, true_label: then_l, false_label: else_l },
        IrInstr::Label(then_l),
    ];
    let b = seq![
        IrInstr::Copy { dest: res, src: crate::ir::Value::VReg(tv) },
        IrInstr::Jump(end_l),
        IrInstr::Label(else_l),
    ];
    let d = seq![
        IrInstr::Copy { dest: res, src: crate::ir::Value::VReg(ev) },
        IrInstr::Label(end_l),
    ];
    let out = lower_if(i, st)->Ok_0.0;
    assert(out == oc + a + ot + b + oe + d);
    lemma_pair(a[0], a[1]);
    lemma_single(a[0]);
    lemma_single(a[1]);
    lemma_triple(b[0], b[1], b[2]);
    lemma_single(b[0]);
    lemma_single(b[1]);
    lemma_single(b[2]);
    lemma_pair(d[0], d[1]);
    lemma_single(d[0]);
    lemma_single(d[1]);
    assert(label_targets(a[0]).to_set() =~= set![then_l, else_l]);
    assert(label_targets(b[1])[0] == end_l);
    assert(label_targets(b[1]).to_set() =~= set![end_l]);
    assert(label_targets(a[1]).to_set() =~= Set::<LabelId>::empty());
    assert(label_targets(b[0]).to_set() =~= Set::<LabelId>::empty());
    assert(label_targets(b[2]).to_set() =~= Set::<LabelId>::empty());
    assert(label_targets(d[0]).to_set() =~= Set::<LabelId>::empty());
    assert(label_targets(d[1]).to_set() =~= Set::<LabelId>::empty());
    lemma_concat(oc, a);
    lemma_concat(oc + a, ot);
    lemma_concat(oc + a + ot, b);
    lemma_concat(oc + a + ot + b, oe);
    lemma_concat(oc + a + ot + b + oe, d);
}

pub proof fn lemma_else_closed(c: Option<ElseClauseNode>, st: LowerState)
    requires
        lower_else(c, st) is Ok,
    ensures
        closed(lower_else(c, st)->Ok_0.0),
    decreases c,
{
    match c {
        None => lemma_zero_closed(st),
        Some(cl) => match cl.body {
            ElseBodyNode::Block(b) => lemma_block_closed(*b, st),
            ElseBodyNode::If(n) => lemma_if_closed(*n, st),
        },
    }
}

pub proof fn lemma_block_closed(b: BlockNode, st: LowerState)
    requires
        lower_block_value(b, st) is Ok,
    ensures
        closed(lower_block_value(b, st)->Ok_0.0),
    decreases b,
{
    let (os, s1) = lower_stmts(b.statements@, st)->Ok_0;
    lemma_stmts_closed(b.statements@, st);
    match b.final_expr {
        Some(e) => {
            lemma_expr_closed(e, s1);
            lemma_concat(os, lower_expr(e, s1)->Ok_0.0);
        },
        None => {
            lemma_zero_closed(s1);
            lemma_concat(os, lower_zero(s1)->Ok_0.0);
        },
    }
}

pub proof fn lemma_stmts_closed(ss: Seq<StatementNode>, st: LowerState)
    requires
        lower_stmts(ss, st) is Ok,
    ensures
        closed(lower_stmts(ss, st)->Ok_0.0),
    decreases ss,
{
    if ss.len() == 0 {
        lemma_empty_closed();
    } else {
        let (o, s1) = lower_stmts(ss.drop_last(), st)->Ok_0;
        lemma_stmts_closed(ss.drop_last(), st);
        lemma_stmt_closed(ss.last(), s1);
        lemma_concat(o, lower_stmt(ss.last(), s1)->Ok_0.0);
    }
}

pub proof fn lemma_stmt_closed(s: StatementNode, st: LowerState)
    requires
        lower_stmt(s, st) is Ok,
    ensures
        closed(lower_stmt(s, st)->Ok_0.0),
    decreases s,
{
    match s {
        StatementNode::Expression(es) => lemma_expr_closed(es.expression, st),
        StatementNode::Let(l) => lemma_expr_closed(l.value, st),
        StatementNode::Assign(a) => lemma_expr_closed(a.value, st),
    }
}

pub proof fn lemma_opt_expr_closed(e: Option<ExpressionNode>, st: LowerState)
    requires
        lower_opt_expr(e, st) is Ok,
    ensures
        closed(lower_opt_expr(e, st)->Ok_0.0),
    decreases e,
{
    match e {
        Some(x) => lemma_expr_closed(x, st),
        None => lemma_empty_closed(),
    }
}

pub proof fn lemma_while_closed(w: WhileStatementNode, st: LowerState)
    requires
        lower_while(w, st) is Ok,
    ensures
        closed(lower_while(w, st)->Ok_0.0),
    decreases w,
{
    let (start_l, s1) = crate::lower::fresh_label(st)->Ok_0;
    let (end_l, s2) = crate::lower::fresh_label(s1)->Ok_0;
    let (oc, c, s3) = lower_expr(w.condition, s2)->Ok_0;
    let (body_l, s4) = crate::lower::fresh_label(s3)->Ok_0;
    let (os, s5) = lower_stmts(w.body.statements@, s4)->Ok_0;
    let (of, s6) = lower_opt_expr(w.body.final_expr, s5)->Ok_0;
    let (oz, z, s7) = lower_zero(s6)->Ok_0;
    lemma_expr_closed(w.condition, s2);
    lemma_stmts_closed(w.body.statements@, s4);
    lemma_opt_expr_closed(w.body.final_expr, s5);
    lemma_zero_closed(s6);
    let h = seq![IrInstr::Label(start_l)];
    let a = seq![
        IrInstr::Branch { condition: c, true_label: body_l, false_label: end_l },
        IrInstr::Label(body_l),
    ];
    let b = seq![IrInstr::Jump(start_l), IrInstr::Label(end_l)];
    let out = lower_while(w, st)->Ok_0.0;
    assert(out == h + oc + a + os + of + b + oz);
    lemma_single(h[0]);
    lemma_pair(a[0], a[1]);
    lemma_single(a[0]);
    lemma_single(a[1]);
    lemma_pair(b[0], b[1]);
    lemma_single(b[0]);
    lemma_single(b[1]);
    assert(label_targets(h[0]).to_set() =~= Set::<LabelId>::empty());
    assert(label_targets(a[0]).to_set() =~= set![body_l, end_l]);
    assert(label_targets(a[1]).to_set() =~= Set::<LabelId>::empty());
    assert(label_targets(b[0])[0] == start_l);
    assert(label_targets(b[0]).to_set() =~= set![start_l]);
    assert(label_targets(b[1]).to_set() =~= Set::<LabelId>::empty());
    lemma_concat(h, oc);
    lemma_concat(h + oc, a);
    lemma_concat(h + oc + a, os);
    lemma_concat(h + oc + a + os, of);
    lemma_concat(h + oc + a + os + of, b);
    lemma_concat(h + oc + a + os + of + b, oz);
}

/// Code with no branches has no targets.
pub proof fn lemma_plain(s: Seq<IrInstr>)
    requires
        forall|i: int| 0 <= i < s.len() ==> label_targets(#[trigger] s[i]).len() == 0,
    ensures
        targets(s) == Set::<LabelId>::empty(),
        closed(s),
{
    assert forall|l: LabelId| !#[trigger] targets(s).contains(l) by {
        if targets(s).contains(l) {
            let (i, k) = choose|i: int, k: int|
                0 <= i < s.len() && 0 <= k < label_targets(s[i]).len() && label_targets(s[i])[k]
                    == l;
        }
    }
    assert(targets(s) =~= Set::<LabelId>::empty());
}

pub proof fn lemma_function_closed(f: FunctionNode, st: LowerState)
    requires
        lower_function(f, st) is Ok,
    ensures
        closed(lower_function(f, st)->Ok_0.0),
{
    let (o0, s1) = function_entry(f, st)->Ok_0;
    let (o1, s2) = function_param(f, s1)->Ok_0;
    let (o2, s3) = lower_stmts(f.body.statements@, s2)->Ok_0;
    lemma_plain(o0);
    lemma_plain(o1);
    lemma_stmts_closed(f.body.statements@, s2);
    lemma_concat(o0, o1);
    lemma_concat(o0 + o1, o2);
    let out = lower_function(f, st)->Ok_0.0;
    match f.body.final_expr {
        Some(e) => {
            let (o3, v, s4) = lower_expr(e, s3)->Ok_0;
            lemma_expr_closed(e, s3);
            let r = seq![IrInstr::Return { value: Some(v) }];
            lemma_plain(r);
            lemma_concat(o0 + o1 + o2, o3);
            lemma_concat(o0 + o1 + o2 + o3, r);
        },
        None => {
            let r = seq![IrInstr::Return { value: None }];
            lemma_plain(r);
            lemma_concat(o0 + o1 + o2, r);
        },
    }
}

pub proof fn lemma_others_closed(items: Seq<CstNode>, st: LowerState)
    requires
        lower_others(items, st) is Ok,
    ensures
        closed(lower_others(items, st)->Ok_0.0),
    decreases items.len(),
{
    if items.len() == 0 {
        lemma_empty_closed();
    } else {
        let (o, s1) = lower_others(items.drop_last(), st)->Ok_0;
        lemma_others_closed(items.drop_last(), st);
        if crate::lower::is_other_function(items.last()) {
            lemma_function_closed(*items.last()->Function_0, s1);
            lemma_concat(o, lower_function(*items.last()->Function_0, s1)->Ok_0.0);
        }
    }
}

/// Every label that the lowered program branches to is defined by a
/// `Label` instruction of the program itself.
pub proof fn lemma_lowered_labels_defined(items: Seq<CstNode>, st: LowerState)
    requires
        lower_program(items, st) is Ok,
    ensures
        labels_closed(lower_program(items, st)->Ok_0.0),
{
    let (op, s1) = lower_prologue(st)->Ok_0;
    let k = crate::lower::first_main(items)->Some_0;
    let (om, s2) = lower_function(*items[k]->Function_0, s1)->Ok_0;
    let (oo, s3) = lower_others(items, s2)->Ok_0;
    lemma_plain(op);
    lemma_function_closed(*items[k]->Function_0, s1);
    lemma_others_closed(items, s2);
    lemma_concat(op, om);
    lemma_concat(op + om, oo);
    lemma_closed_means_labels_closed(op + om + oo);
}

} // verus!

//! Trees on which no trace gets stuck, whatever it has gathered.

use crate::event::EventView;
use crate::hir::{Block, Body, Expr, ExprKind, Local, Node, Pat, QPath, Stmt, UnOp};
use crate::points::AccessPointView;
use crate::semantics;
use crate::semantics::Run;
use crate::text;
use vstd::prelude::*;

verus! {

/// The name of `arg` can be read where it is an argument of a call.
pub open spec fn arg_readable(arg: Expr) -> bool {
    match arg.kind {
        ExprKind::Path(_) => semantics::path_readable(arg),
        ExprKind::AddrOf(_, inner) => semantics::path_readable(*inner),
        _ => true,
    }
}

/// Wherever a visit of `expr` looks for a name it can read the text, wherever it sets a variable it
/// can read the value, and printing is called with arguments.
pub open spec fn expr_readable(expr: Expr) -> bool
    decreases expr, 0nat,
{
    match expr.kind {
        ExprKind::Call(callee, args) => {
            &&& text::quotes_close(callee.text@)
            &&& semantics::is_print(text::var_name(callee.text@)) ==> {
                &&& args@.len() > 0
                &&& match args@[0].kind {
                    ExprKind::Call(_, pieces) => exprs_readable(pieces@),
                    _ => true,
                }
            }
            &&& forall|i: int| 0 <= i < args@.len() ==> arg_readable(#[trigger] args@[i])
        },
        ExprKind::MethodCall { receiver, args, span } => {
            &&& span.from_expansion || !receiver.is_place ==> expr_readable(*receiver)
            &&& exprs_readable(args@)
        },
        ExprKind::Binary(lhs, rhs) => expr_readable(*lhs) && expr_readable(*rhs),
        ExprKind::Lit => true,
        ExprKind::AddrOf(_, inner) => semantics::is_written_place(*inner) || expr_readable(*inner),
        ExprKind::Assign(lhs, rhs) => {
            &&& semantics::path_readable(*lhs)
            &&& semantics::rhs_readable(*rhs)
            &&& expr_readable(*lhs)
            &&& rhs.kind is Path || expr_readable(*rhs)
        },
        ExprKind::Block(block) => block_readable(block),
        ExprKind::AssignOp(lhs, _) => expr_readable(*lhs),
        ExprKind::Unary(op, inner) => (op == UnOp::Deref && semantics::is_written_place(*inner))
            || expr_readable(*inner),
        ExprKind::Path(QPath::Resolved(path)) => path.is_local && !path.span.from_expansion
            ==> text::quotes_close(expr.text@),
        ExprKind::Path(QPath::Other) => true,
        ExprKind::Other(nodes) => nodes_readable(nodes@),
    }
}

/// [`expr_readable`] of each of `exprs`.
pub open spec fn exprs_readable(exprs: Seq<Expr>) -> bool
    decreases exprs, 0nat,
{
    forall|i: int| 0 <= i < exprs.len() ==> expr_readable(#[trigger] exprs[i])
}

/// Each of `nodes` can be visited, as [`expr_readable`] says.
pub open spec fn nodes_readable(nodes: Seq<Node>) -> bool
    decreases nodes, 0nat,
{
    forall|i: int|
        0 <= i < nodes.len() ==> match #[trigger] nodes[i] {
            Node::Expr(expr) => expr_readable(expr),
            Node::Block(block) => block_readable(block),
        }
}

/// All of `block` can be visited, as [`expr_readable`] says.
pub open spec fn block_readable(block: Block) -> bool
    decreases block, 0nat,
{
    &&& stmts_readable(block.stmts@)
    &&& match block.expr {
        Some(expr) => expr_readable(*expr),
        None => true,
    }
}

/// [`stmt_readable`] of each of `stmts`.
pub open spec fn stmts_readable(stmts: Seq<Stmt>) -> bool
    decreases stmts, 0nat,
{
    forall|i: int| 0 <= i < stmts.len() ==> stmt_readable(#[trigger] stmts[i])
}

/// All of `stmt` can be visited, as [`expr_readable`] says.
pub open spec fn stmt_readable(stmt: Stmt) -> bool
    decreases stmt, 0nat,
{
    match stmt {
        Stmt::Local(local) => local_readable(local),
        Stmt::Item => true,
        Stmt::Expr(expr) => expr_readable(expr),
        Stmt::Semi(expr) => expr_readable(expr),
    }
}

/// All of `local` can be visited, as [`expr_readable`] says.
pub open spec fn local_readable(local: Local) -> bool
    decreases local, 0nat,
{
    &&& match (local.pat, local.init) {
        (Pat::Binding { .. }, Some(init)) => {
            &&& semantics::rhs_readable(init)
            &&& init.kind is Path || expr_readable(init)
        },
        _ => true,
    }
    &&& match local.els {
        Some(block) => block_readable(block),
        None => true,
    }
}

proof fn lemma_args_go_on(
    run: Run,
    function: Option<Seq<char>>,
    line: usize,
    args: Seq<Expr>,
    n: nat,
)
    requires
        run.ok,
        n <= args.len(),
        forall|i: int| 0 <= i < args.len() ==> arg_readable(#[trigger] args[i]),
    ensures
        semantics::args_run(run, function, line, args, n).ok,
    decreases n,
{
    if n > 0 {
        lemma_args_go_on(run, function, line, args, (n - 1) as nat);
        assert(arg_readable(args[n - 1]));
    }
}

/// No visit gets stuck on a readable expression.
pub proof fn law_readable_expr_goes_on(run: Run, expr: Expr)
    requires
        run.ok,
        expr_readable(expr),
    ensures
        semantics::expr_run(run, expr).ok,
    decreases expr, 0nat,
{
    match expr.kind {
        ExprKind::Call(callee, args) => {
            let told = run.state.emit(EventView::Blank).emit(
                EventView::FunctionCall(expr.text@),
            ).emit(EventView::OnLine(expr.span.line));
            let function = text::var_name(callee.text@);
            let printed = if semantics::is_print(function) {
                match args@[0].kind {
                    ExprKind::Call(_, pieces) => {
                        law_readable_exprs_go_on(told.go(), pieces@, pieces@.len());
                        semantics::exprs_run(told.go(), pieces@, pieces@.len())
                    },
                    _ => told.go(),
                }
            } else {
                told.go()
            };
            lemma_args_go_on(printed, function, expr.span.line, args@, args@.len());
        },
        ExprKind::MethodCall { receiver, args, span } => {
            if !span.from_expansion && receiver.is_place {
                law_readable_exprs_go_on(run, args@, args@.len());
            } else {
                law_readable_expr_goes_on(run, *receiver);
                law_readable_exprs_go_on(
                    semantics::expr_run(run, *receiver),
                    args@,
                    args@.len(),
                );
            }
        },
        ExprKind::Binary(lhs, rhs) => {
            law_readable_expr_goes_on(run, *lhs);
            law_readable_expr_goes_on(semantics::expr_run(run, *lhs), *rhs);
        },
        ExprKind::Lit => {},
        ExprKind::AddrOf(_, inner) => {
            if !semantics::is_written_place(*inner) {
                law_readable_expr_goes_on(run, *inner);
            }
        },
        ExprKind::Assign(lhs, rhs) => {
            let told = run.state.emit(EventView::Blank).emit(
                EventView::AssignExpression(expr.text@),
            ).emit(EventView::OnLine(expr.span.line));
            let assigned = semantics::assign_run(told, *lhs, *rhs);
            law_readable_expr_goes_on(assigned, *lhs);
            if !(rhs.kind is Path) {
                law_readable_expr_goes_on(semantics::expr_run(assigned, *lhs), *rhs);
            }
        },
        ExprKind::Block(block) => {
            law_readable_block_goes_on(run, block);
        },
        ExprKind::AssignOp(lhs, _) => {
            law_readable_expr_goes_on(run, *lhs);
        },
        ExprKind::Unary(op, inner) => {
            if !(op == UnOp::Deref && semantics::is_written_place(*inner)) {
                law_readable_expr_goes_on(run, *inner);
            }
        },
        ExprKind::Path(_) => {},
        ExprKind::Other(nodes) => {
            law_readable_nodes_go_on(run, nodes@, nodes@.len());
        },
    }
}

/// No visit gets stuck on readable expressions.
pub proof fn law_readable_exprs_go_on(run: Run, exprs: Seq<Expr>, n: nat)
    requires
        run.ok,
        n <= exprs.len(),
        exprs_readable(exprs),
    ensures
        semantics::exprs_run(run, exprs, n).ok,
    decreases exprs, n,
{
    if n > 0 {
        law_readable_exprs_go_on(run, exprs, (n - 1) as nat);
        law_readable_expr_goes_on(
            semantics::exprs_run(run, exprs, (n - 1) as nat),
            exprs[n - 1],
        );
    }
}

/// No visit gets stuck on readable nodes.
pub proof fn law_readable_nodes_go_on(run: Run, nodes: Seq<Node>, n: nat)
    requires
        run.ok,
        n <= nodes.len(),
        nodes_readable(nodes),
    ensures
        semantics::nodes_run(run, nodes, n).ok,
    decreases nodes, n,
{
    if n > 0 {
        let before = semantics::nodes_run(run, nodes, (n - 1) as nat);
        law_readable_nodes_go_on(run, nodes, (n - 1) as nat);
        match nodes[n - 1] {
            Node::Expr(expr) => {
                law_readable_expr_goes_on(before, expr);
            },
            Node::Block(block) => {
                law_readable_block_goes_on(before, block);
            },
        }
        assert(semantics::node_run(before, nodes[n - 1]).ok);
    }
}

/// No visit gets stuck on a readable block.
pub proof fn law_readable_block_goes_on(run: Run, block: Block)
    requires
        run.ok,
        block_readable(block),
    ensures
        semantics::block_run(run, block).ok,
    decreases block, 0nat,
{
    let done = semantics::stmts_run(run, block.stmts@, block.stmts@.len());
    law_readable_stmts_go_on(run, block.stmts@, block.stmts@.len());
    if block.expr is Some {
        law_readable_expr_goes_on(done, *block.expr->0);
    }
}

/// No visit gets stuck on readable statements.
pub proof fn law_readable_stmts_go_on(run: Run, stmts: Seq<Stmt>, n: nat)
    requires
        run.ok,
        n <= stmts.len(),
        stmts_readable(stmts),
    ensures
        semantics::stmts_run(run, stmts, n).ok,
    decreases stmts, n,
{
    if n > 0 {
        law_readable_stmts_go_on(run, stmts, (n - 1) as nat);
        law_readable_stmt_goes_on(
            semantics::stmts_run(run, stmts, (n - 1) as nat),
            stmts[n - 1],
        );
    }
}

/// No visit gets stuck on a readable statement.
pub proof fn law_readable_stmt_goes_on(run: Run, stmt: Stmt)
    requires
        run.ok,
        stmt_readable(stmt),
    ensures
        semantics::stmt_run(run, stmt).ok,
    decreases stmt, 0nat,
{
    match stmt {
        Stmt::Local(local) => {
            law_readable_local_goes_on(run, local);
        },
        Stmt::Item => {},
        Stmt::Expr(expr) => {
            law_readable_expr_goes_on(run, expr);
        },
        Stmt::Semi(expr) => {
            law_readable_expr_goes_on(run, expr);
        },
    }
}

/// No visit gets stuck on a readable `let` statement.
pub proof fn law_readable_local_goes_on(run: Run, local: Local)
    requires
        run.ok,
        local_readable(local),
    ensures
        semantics::local_run(run, local).ok,
    decreases local, 0nat,
{
    let told = run.state.emit(EventView::Blank).emit(
        EventView::Statement(local.text@),
    ).emit(EventView::StatementLine(local.span.line));
    let set = match local.pat {
        Pat::Binding { mutability, name } => {
            let declared = told.declare(name@, mutability);
            match local.init {
                Some(init) => {
                    let taken = semantics::match_rhs_run(
                        declared,
                        AccessPointView { mutability, name: name@ },
                        init,
                    );
                    if init.kind is Path {
                        taken
                    } else {
                        law_readable_expr_goes_on(taken, init);
                        semantics::expr_run(taken, init)
                    }
                },
                None => declared.go(),
            }
        },
        Pat::Path { def_path } => told.emit(
            EventView::LhsPath(def_path@),
        ).go(),
        Pat::Other => told.emit(EventView::LhsNotListed).go(),
    };
    if local.els is Some {
        law_readable_block_goes_on(set, local.els->0);
    }
}

/// No trace gets stuck on a body whose value is readable.
pub proof fn law_readable_body_goes_on(run: Run, body: Body)
    requires
        run.ok,
        expr_readable(body.value),
    ensures
        semantics::body_run(run, body).ok,
{
    law_readable_expr_goes_on(
        semantics::params_state(run.state, body.params@, body.params@.len()).go(),
        body.value,
    );
}

} // verus!

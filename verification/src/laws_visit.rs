//! What visiting a tree comes to: how the visit of a node is made up of visits of its parts, and
//! what every visit tells.

use crate::event::{EventView, PartyView, Transfer};
use crate::hir::{
    Block, Body, Expr, ExprKind, GenericArg, Local, Mutability, Node, Param, Pat, Path, QPath,
    Span, Stmt, Ty, UnOp,
};
use crate::laws;
use crate::laws_value;
use crate::points::{AccessPointView, UsageView};
use crate::semantics;
use crate::semantics::{Run, State};
use crate::text;
use vstd::prelude::*;

verus! {

proof fn lemma_stmts_prefix(run: Run, a: Seq<Stmt>, b: Seq<Stmt>, n: nat)
    requires
        n <= a.len(),
        a.is_prefix_of(b),
    ensures
        semantics::stmts_run(run, a, n) == semantics::stmts_run(run, b, n),
    decreases n,
{
    if n > 0 {
        lemma_stmts_prefix(run, a, b, (n - 1) as nat);
        assert(a[n - 1] == b[n - 1]);
    }
}

proof fn lemma_exprs_prefix(run: Run, a: Seq<Expr>, b: Seq<Expr>, n: nat)
    requires
        n <= a.len(),
        a.is_prefix_of(b),
    ensures
        semantics::exprs_run(run, a, n) == semantics::exprs_run(run, b, n),
    decreases n,
{
    if n > 0 {
        lemma_exprs_prefix(run, a, b, (n - 1) as nat);
        assert(a[n - 1] == b[n - 1]);
    }
}

proof fn lemma_nodes_prefix(run: Run, a: Seq<Node>, b: Seq<Node>, n: nat)
    requires
        n <= a.len(),
        a.is_prefix_of(b),
    ensures
        semantics::nodes_run(run, a, n) == semantics::nodes_run(run, b, n),
    decreases n,
{
    if n > 0 {
        lemma_nodes_prefix(run, a, b, (n - 1) as nat);
        assert(a[n - 1] == b[n - 1]);
    }
}

proof fn lemma_args_prefix(
    run: Run,
    function: Option<Seq<char>>,
    line: usize,
    a: Seq<Expr>,
    b: Seq<Expr>,
    n: nat,
)
    requires
        n <= a.len(),
        a.is_prefix_of(b),
    ensures
        semantics::args_run(run, function, line, a, n) == semantics::args_run(
            run,
            function,
            line,
            b,
            n,
        ),
    decreases n,
{
    if n > 0 {
        lemma_args_prefix(run, function, line, a, b, (n - 1) as nat);
        assert(a[n - 1] == b[n - 1]);
    }
}

/// An empty block changes nothing, a block with one more statement is the shorter block and then
/// that statement, and a block with a tail expression is the block without and then the tail.
pub proof fn law_block_is_its_parts_in_order(
    run: Run,
    shorter: Block,
    longer: Block,
    stmt: Stmt,
    tailed: Block,
    tail: Box<Expr>,
)
    requires
        shorter.expr is None,
        longer.expr is None,
        longer.stmts@ == shorter.stmts@ + seq![stmt],
        tailed.stmts@ == shorter.stmts@,
        tailed.expr == Some(tail),
    ensures
        shorter.stmts@.len() == 0 ==> semantics::block_run(run, shorter) == run,
        semantics::block_run(run, longer) == semantics::stmt_run(
            semantics::block_run(run, shorter),
            stmt,
        ),
        semantics::block_run(run, tailed) == semantics::expr_run(
            semantics::block_run(run, shorter),
            *tail,
        ),
{
    let n = shorter.stmts@.len();
    lemma_stmts_prefix(run, shorter.stmts@, longer.stmts@, n);
    assert(longer.stmts@[n as int] == stmt);
    assert(semantics::stmts_run(run, longer.stmts@, n + 1) == semantics::stmt_run(
        semantics::stmts_run(run, longer.stmts@, n),
        stmt,
    ));
}

/// A statement is the `let`, or the expression, that it is; items are left alone.
pub proof fn law_statement_is_what_it_holds(run: Run, local: Local, expr: Expr)
    ensures
        semantics::stmt_run(run, Stmt::Local(local)) == semantics::local_run(run, local),
        semantics::stmt_run(run, Stmt::Expr(expr)) == semantics::expr_run(run, expr),
        semantics::stmt_run(run, Stmt::Semi(expr)) == semantics::expr_run(run, expr),
        semantics::stmt_run(run, Stmt::Item) == run,
{
}

/// A block that is a single `let` does what that `let` does.
pub proof fn law_block_of_one_let(run: Run, block: Block, local: Local)
    requires
        block.stmts@ == seq![Stmt::Local(local)],
        block.expr is None,
    ensures
        semantics::block_run(run, block) == semantics::local_run(run, local),
{
    assert(semantics::stmts_run(run, block.stmts@, 0) == run);
    assert(block.stmts@[0] == Stmt::Local(local));
    assert(semantics::stmts_run(run, block.stmts@, 1) == semantics::stmt_run(
        run,
        block.stmts@[0],
    ));
    law_statement_is_what_it_holds(run, local, arbitrary());
}

/// Expressions are visited one after the other, and so are nodes; a node is the expression or the
/// block that it is.
pub proof fn law_nodes_in_order(
    run: Run,
    exprs: Seq<Expr>,
    nodes: Seq<Node>,
    expr: Expr,
    block: Block,
)
    ensures
        semantics::exprs_run(run, Seq::empty(), 0) == run,
        semantics::exprs_run(run, exprs + seq![expr], exprs.len() + 1) == semantics::expr_run(
            semantics::exprs_run(run, exprs, exprs.len()),
            expr,
        ),
        semantics::nodes_run(run, Seq::empty(), 0) == run,
        semantics::nodes_run(run, nodes + seq![Node::Expr(expr)], nodes.len() + 1)
            == semantics::expr_run(semantics::nodes_run(run, nodes, nodes.len()), expr),
        semantics::nodes_run(run, nodes + seq![Node::Block(block)], nodes.len() + 1)
            == semantics::block_run(semantics::nodes_run(run, nodes, nodes.len()), block),
{
    let n = exprs.len();
    let longer = exprs + seq![expr];
    lemma_exprs_prefix(run, exprs, longer, n);
    assert(longer[n as int] == expr);
    assert(semantics::exprs_run(run, longer, n + 1) == semantics::expr_run(
        semantics::exprs_run(run, longer, n),
        expr,
    ));
    let m = nodes.len();
    let with_expr = nodes + seq![Node::Expr(expr)];
    let with_block = nodes + seq![Node::Block(block)];
    let before = semantics::nodes_run(run, nodes, m);
    lemma_nodes_prefix(run, nodes, with_expr, m);
    lemma_nodes_prefix(run, nodes, with_block, m);
    assert(with_expr[m as int] == Node::Expr(expr));
    assert(with_block[m as int] == Node::Block(block));
    assert(semantics::node_run(before, Node::Expr(expr)) == semantics::expr_run(before, expr));
    assert(semantics::node_run(before, Node::Block(block)) == semantics::block_run(before, block));
    assert(semantics::nodes_run(run, with_expr, m + 1) == semantics::node_run(
        semantics::nodes_run(run, with_expr, m),
        with_expr[m as int],
    ));
    assert(semantics::nodes_run(run, with_block, m + 1) == semantics::node_run(
        semantics::nodes_run(run, with_block, m),
        with_block[m as int],
    ));
}

/// In a run that is stuck no visit changes anything.
pub proof fn law_stuck_stays_stuck(run: Run, expr: Expr, block: Block, stmt: Stmt, body: Body)
    requires
        !run.ok,
    ensures
        semantics::expr_run(run, expr) == run,
        semantics::block_run(run, block) == run,
        semantics::stmt_run(run, stmt) == run,
        semantics::body_run(run, body) == run,
{
    semantics::lemma_expr_stuck(run, expr);
    semantics::lemma_block_stuck(run, block);
    semantics::lemma_stmt_stuck(run, stmt);
}

/// The state with a blank line, `node` and `line` told.
pub open spec fn told(state: State, node: EventView, line: EventView) -> State {
    State { log: state.log + seq![EventView::Blank, node, line], ..state }
}

proof fn lemma_told(state: State, node: EventView, line: EventView)
    ensures
        state.emit(EventView::Blank).emit(node).emit(line) == told(state, node, line),
{
    assert(state.emit(EventView::Blank).emit(node).emit(line) =~= told(state, node, line));
}

/// A call with one more argument is the call without it and then that argument, told under the
/// callee's name and on the line of the call. This holds of a printing call from its second
/// argument on.
pub proof fn law_call_with_one_more_argument(
    run: Run,
    shorter: Expr,
    longer: Expr,
    callee: Box<Expr>,
    args: Vec<Expr>,
    more: Vec<Expr>,
    arg: Expr,
)
    requires
        run.ok,
        shorter.kind == ExprKind::Call(callee, args),
        longer.kind == ExprKind::Call(callee, more),
        more@ == args@ + seq![arg],
        longer.text@ == shorter.text@,
        longer.span == shorter.span,
        args@.len() > 0 || text::var_name(callee.text@) is None || !text::has_substring(
            text::var_name(callee.text@)->0,
            "crate::io::_print"@,
        ),
        text::quotes_close(callee.text@),
    ensures
        semantics::expr_run(run, longer) == semantics::arg_run(
            semantics::expr_run(run, shorter),
            text::var_name(callee.text@),
            longer.span.line,
            arg,
        ),
{
    let function = text::var_name(callee.text@);
    let line = longer.span.line;
    let start = run.state.emit(EventView::Blank).emit(EventView::FunctionCall(longer.text@)).emit(
        EventView::OnLine(line),
    );
    let n = args@.len();
    if n > 0 {
        assert(more@[0] == args@[0]);
    }
    let printed = if semantics::is_print(function) {
        match args@[0].kind {
            ExprKind::Call(_, pieces) => semantics::exprs_run(start.go(), pieces@, pieces@.len()),
            _ => start.go(),
        }
    } else {
        start.go()
    };
    lemma_args_prefix(printed, function, line, args@, more@, n);
    assert(more@[n as int] == arg);
    assert(semantics::expr_run(run, shorter) == semantics::args_run(
        printed,
        function,
        line,
        args@,
        n,
    ));
    assert(semantics::expr_run(run, longer) == semantics::args_run(
        printed,
        function,
        line,
        more@,
        n + 1,
    ));
}

/// A call without arguments is told, with its text and its line, and does nothing else.
pub proof fn law_call_without_arguments(run: Run, expr: Expr, callee: Box<Expr>, args: Vec<Expr>)
    requires
        run.ok,
        expr.kind == ExprKind::Call(callee, args),
        args@.len() == 0,
        text::quotes_close(callee.text@),
        text::var_name(callee.text@) is None || !text::has_substring(
            text::var_name(callee.text@)->0,
            "crate::io::_print"@,
        ),
    ensures
        semantics::expr_run(run, expr) == (Run {
            state: told(
                run.state,
                EventView::FunctionCall(expr.text@),
                EventView::OnLine(expr.span.line),
            ),
            ok: true,
        }),
{
    lemma_told(run.state, EventView::FunctionCall(expr.text@), EventView::OnLine(expr.span.line));
}

/// A printing call is told; then, where its first argument is a call itself, what that call is
/// made of is visited; then the first argument is told like that of any call.
pub proof fn law_printing_call(run: Run, expr: Expr, callee: Box<Expr>, args: Vec<Expr>)
    requires
        run.ok,
        expr.kind == ExprKind::Call(callee, args),
        args@.len() == 1,
        text::quotes_close(callee.text@),
        text::var_name(callee.text@) is Some,
        text::has_substring(text::var_name(callee.text@)->0, "crate::io::_print"@),
    ensures
        ({
            let start = Run {
                state: told(
                    run.state,
                    EventView::FunctionCall(expr.text@),
                    EventView::OnLine(expr.span.line),
                ),
                ok: true,
            };
            let function = text::var_name(callee.text@);
            let line = expr.span.line;
            &&& args@[0].kind matches ExprKind::Call(format, pieces) ==> semantics::expr_run(
                run,
                expr,
            ) == semantics::arg_run(
                semantics::exprs_run(start, pieces@, pieces@.len()),
                function,
                line,
                args@[0],
            )
            &&& !(args@[0].kind is Call) ==> semantics::expr_run(run, expr) == semantics::arg_run(
                start,
                function,
                line,
                args@[0],
            )
        }),
{
    let function = text::var_name(callee.text@);
    let line = expr.span.line;
    lemma_told(run.state, EventView::FunctionCall(expr.text@), EventView::OnLine(line));
    let start = told(
        run.state,
        EventView::FunctionCall(expr.text@),
        EventView::OnLine(line),
    ).go();
    let printed = match args@[0].kind {
        ExprKind::Call(_, pieces) => semantics::exprs_run(start, pieces@, pieces@.len()),
        _ => start,
    };
    assert(semantics::args_run(printed, function, line, args@, 0) == printed);
    assert(semantics::args_run(printed, function, line, args@, 1) == semantics::arg_run(
        printed,
        function,
        line,
        args@[0],
    ));
    assert(semantics::expr_run(run, expr) == semantics::args_run(
        printed,
        function,
        line,
        args@,
        1,
    ));
}

/// A call is told, and the trace is then stuck where the callee's text has a single backquote, or
/// where printing is called without arguments.
pub proof fn law_unreadable_call_stops(run: Run, expr: Expr, callee: Box<Expr>, args: Vec<Expr>)
    requires
        run.ok,
        expr.kind == ExprKind::Call(callee, args),
        !text::quotes_close(callee.text@) || (args@.len() == 0 && text::var_name(
            callee.text@,
        ) is Some && text::has_substring(
            text::var_name(callee.text@)->0,
            "crate::io::_print"@,
        )),
    ensures
        semantics::expr_run(run, expr) == (Run {
            state: told(
                run.state,
                EventView::FunctionCall(expr.text@),
                EventView::OnLine(expr.span.line),
            ),
            ok: false,
        }),
{
    lemma_told(run.state, EventView::FunctionCall(expr.text@), EventView::OnLine(expr.span.line));
}

/// A method call visits its arguments in order, and its receiver before them, unless that is a
/// place and the call stands in the source itself.
pub proof fn law_method_call(
    run: Run,
    expr: Expr,
    receiver: Box<Expr>,
    args: Vec<Expr>,
    span: Span,
)
    requires
        run.ok,
        expr.kind == (ExprKind::MethodCall { receiver, args, span }),
    ensures
        receiver.is_place && !span.from_expansion ==> semantics::expr_run(run, expr)
            == semantics::exprs_run(run, args@, args@.len()),
        !receiver.is_place || span.from_expansion ==> semantics::expr_run(run, expr)
            == semantics::exprs_run(semantics::expr_run(run, *receiver), args@, args@.len()),
{
}

/// An operator visits its left side and then its right side, an operator assignment its left side
/// alone; a literal and a path that is not resolved change nothing; a block expression is its
/// block; other kinds visit what they hold in order.
pub proof fn law_plain_expressions(
    run: Run,
    expr: Expr,
    lhs: Box<Expr>,
    rhs: Box<Expr>,
    block: Block,
    nodes: Vec<Node>,
)
    requires
        run.ok,
    ensures
        expr.kind == ExprKind::Binary(lhs, rhs) ==> semantics::expr_run(run, expr)
            == semantics::expr_run(semantics::expr_run(run, *lhs), *rhs),
        expr.kind == ExprKind::AssignOp(lhs, rhs) ==> semantics::expr_run(run, expr)
            == semantics::expr_run(run, *lhs),
        expr.kind == ExprKind::Lit ==> semantics::expr_run(run, expr) == run,
        expr.kind == ExprKind::Path(QPath::Other) ==> semantics::expr_run(run, expr) == run,
        expr.kind == ExprKind::Block(block) ==> semantics::expr_run(run, expr)
            == semantics::block_run(run, block),
        expr.kind == ExprKind::Other(nodes) ==> semantics::expr_run(run, expr)
            == semantics::nodes_run(run, nodes@, nodes@.len()),
{
}

/// A borrow, or a dereference, of a place that the source itself writes is left alone; any other
/// borrow or unary operator visits its operand.
pub proof fn law_borrows_and_operators(
    run: Run,
    expr: Expr,
    borrow: Mutability,
    op: UnOp,
    inner: Box<Expr>,
)
    requires
        run.ok,
    ensures
        ({
            let written = inner.is_syntactic_place && !inner.span.from_expansion;
            &&& expr.kind == ExprKind::AddrOf(borrow, inner) && written ==> semantics::expr_run(
                run,
                expr,
            ) == run
            &&& expr.kind == ExprKind::AddrOf(borrow, inner) && !written ==> semantics::expr_run(
                run,
                expr,
            ) == semantics::expr_run(run, *inner)
            &&& expr.kind == ExprKind::Unary(op, inner) && op == UnOp::Deref && written
                ==> semantics::expr_run(run, expr) == run
            &&& expr.kind == ExprKind::Unary(op, inner) && (op != UnOp::Deref || !written)
                ==> semantics::expr_run(run, expr) == semantics::expr_run(run, *inner)
        }),
{
}

/// A local variable by itself, written in the source, whose use gives it up, is told to be moved to
/// nowhere, with its line; it is not told where its text gives no name, and the trace is stuck
/// where its text has a single backquote. Any other path changes nothing.
pub proof fn law_variable_is_given_up(run: Run, expr: Expr, path: Path)
    requires
        run.ok,
        expr.kind == ExprKind::Path(QPath::Resolved(path)),
    ensures
        ({
            let state = run.state;
            let given_up = path.is_local && !path.span.from_expansion
                && state.boundaries.contains_key(path.span.lo)
                && state.boundaries[path.span.lo].expected.drop;
            let next = semantics::expr_run(run, expr);
            &&& !given_up ==> next == run
            &&& given_up && !text::quotes_close(expr.text@) ==> next == (Run { state, ok: false })
            &&& given_up && text::quotes_close(expr.text@) ==> match text::var_name(expr.text@) {
                Some(name) => next == (Run {
                    state: State {
                        log: state.log + seq![
                            EventView::Blank,
                            EventView::OnLine(expr.span.line),
                            EventView::Transfer {
                                how: Transfer::Move,
                                from: PartyView::Variable(name),
                                to: PartyView::Nowhere,
                            },
                        ],
                        ..state
                    },
                    ok: true,
                }),
                None => next == run,
            }
        }),
{
    let state = run.state;
    if let Some(name) = text::var_name(expr.text@) {
        let moved = EventView::Transfer {
            how: Transfer::Move,
            from: PartyView::Variable(name),
            to: PartyView::Nowhere,
        };
        lemma_told(state, EventView::OnLine(expr.span.line), moved);
    }
}

/// An assignment is told, with its text and its line; then a declared variable that it sets gets
/// the right hand side; then the left side is visited, and then the right side, unless that is a
/// path. Where the left side is no named path, the variable is the one without a name.
pub proof fn law_assignment(run: Run, expr: Expr, lhs: Box<Expr>, rhs: Box<Expr>)
    requires
        run.ok,
        expr.kind == ExprKind::Assign(lhs, rhs),
    ensures
        ({
            let start = told(
                run.state,
                EventView::AssignExpression(expr.text@),
                EventView::OnLine(expr.span.line),
            );
            let found = match lhs.kind {
                ExprKind::Path(QPath::Resolved(path)) => text::var_name(path.segment@),
                _ => None,
            };
            let name = if found is Some { found->0 } else { Seq::<char>::empty() };
            let unreadable = lhs.kind matches ExprKind::Path(QPath::Resolved(path))
                && !text::quotes_close(path.segment@);
            let point = AccessPointView { mutability: start.mutability[name], name };
            let set = if start.mutability.contains_key(name) {
                semantics::match_rhs_run(start, point, *rhs)
            } else {
                Run { state: start, ok: true }
            };
            let seen = semantics::expr_run(set, *lhs);
            let last = semantics::expr_run(run, expr);
            &&& unreadable ==> last == (Run { state: start, ok: false })
            &&& !unreadable && rhs.kind is Path ==> last == seen
            &&& !unreadable && !(rhs.kind is Path) ==> last == semantics::expr_run(seen, *rhs)
        }),
{
    let start = told(
        run.state,
        EventView::AssignExpression(expr.text@),
        EventView::OnLine(expr.span.line),
    );
    lemma_told(
        run.state,
        EventView::AssignExpression(expr.text@),
        EventView::OnLine(expr.span.line),
    );
    if !semantics::path_readable(*lhs) {
        let stuck = semantics::assign_run(start, *lhs, *rhs);
        semantics::lemma_expr_stuck(stuck, *lhs);
        semantics::lemma_expr_stuck(stuck, *rhs);
    }
}

/// A `let` is told, with its text and its line. Where it binds a variable, that is declared, gets
/// its value if there is one, and the value is visited unless it is a path. A pattern that is a
/// path, and any other, is told as such. An `else` block is visited last.
pub proof fn law_let(run: Run, local: Local, mutability: Mutability, name: String)
    requires
        run.ok,
    ensures
        ({
            let start = told(
                run.state,
                EventView::Statement(local.text@),
                EventView::StatementLine(local.span.line),
            );
            let declared = State {
                mutability: start.mutability.insert(name@, mutability),
                ..start
            };
            let point = AccessPointView { mutability, name: name@ };
            let last = semantics::local_run(run, local);
            let binds = local.pat == (Pat::Binding { mutability, name });
            &&& binds && local.init is None && local.els is None ==> last == (Run {
                state: declared,
                ok: true,
            })
            &&& binds && local.init is Some && local.init->0.kind is Path && local.els is None
                ==> last == semantics::match_rhs_run(declared, point, local.init->0)
            &&& binds && local.init is Some && !(local.init->0.kind is Path) && local.els is None
                ==> last == semantics::expr_run(
                semantics::match_rhs_run(declared, point, local.init->0),
                local.init->0,
            )
            &&& local.pat matches Pat::Path { def_path } ==> local.els is None ==> last == (Run {
                state: State { log: start.log + seq![EventView::LhsPath(def_path@)], ..start },
                ok: true,
            })
            &&& local.pat is Other && local.els is None ==> last == (Run {
                state: State { log: start.log + seq![EventView::LhsNotListed], ..start },
                ok: true,
            })
        }),
{
    let start = told(
        run.state,
        EventView::Statement(local.text@),
        EventView::StatementLine(local.span.line),
    );
    lemma_told(
        run.state,
        EventView::Statement(local.text@),
        EventView::StatementLine(local.span.line),
    );
    if let Pat::Path { def_path } = local.pat {
        assert(start.log.push(EventView::LhsPath(def_path@)) =~= start.log + seq![
            EventView::LhsPath(def_path@),
        ]);
    }
    assert(start.log.push(EventView::LhsNotListed) =~= start.log + seq![EventView::LhsNotListed]);
}

/// A `let` with an `else` block is the `let` without it and then the block.
pub proof fn law_let_else(run: Run, plain: Local, with_else: Local, els: Block)
    requires
        plain.els is None,
        with_else.els == Some(els),
        plain.text@ == with_else.text@,
        plain.span == with_else.span,
        plain.pat == with_else.pat,
        plain.init == with_else.init,
    ensures
        semantics::local_run(run, with_else) == semantics::block_run(
            semantics::local_run(run, plain),
            els,
        ),
{
    if !run.ok {
        semantics::lemma_block_stuck(run, els);
    }
}

/// A body without parameters is its value, and one with a first parameter is that parameter and
/// then the body with the rest.
pub proof fn law_body_is_parameters_then_value(run: Run, body: Body, rest: Body, first: Param)
    requires
        run.ok,
        body.params@ == seq![first] + rest.params@,
        body.value == rest.value,
    ensures
        rest.params@.len() == 0 ==> semantics::body_run(run, rest) == semantics::expr_run(
            run,
            rest.value,
        ),
        semantics::body_run(run, body) == semantics::body_run(
            Run { state: semantics::param_state(run.state, first), ok: true },
            rest,
        ),
{
    lemma_params_front(run.state, first, rest.params@, rest.params@.len());
}

proof fn lemma_params_front(state: State, first: Param, rest: Seq<Param>, n: nat)
    requires
        n <= rest.len(),
    ensures
        semantics::params_state(state, seq![first] + rest, n + 1) == semantics::params_state(
            semantics::param_state(state, first),
            rest,
            n,
        ),
    decreases n,
{
    let all = seq![first] + rest;
    if n == 0 {
        assert(all[0] == first);
        assert(semantics::params_state(state, all, 0) == state);
    } else {
        lemma_params_front(state, first, rest, (n - 1) as nat);
        assert(all[n as int] == rest[n - 1]);
    }
}

/// A visit of a `let` adds its text to the log.
proof fn lemma_let_is_told(run: Run, local: Local)
    requires
        run.ok,
    ensures
        ({
            let n = run.state.log.len();
            let log = semantics::local_run(run, local).state.log;
            &&& log.len() >= n + 3
            &&& log[n as int + 1] == EventView::Statement(local.text@)
            &&& told(
                run.state,
                EventView::Statement(local.text@),
                EventView::StatementLine(local.span.line),
            ).log.is_prefix_of(log)
        }),
{
    let start = told(
        run.state,
        EventView::Statement(local.text@),
        EventView::StatementLine(local.span.line),
    );
    let plain = Local { els: None, ..local };
    let last = semantics::local_run(run, plain).state;
    lemma_told(
        run.state,
        EventView::Statement(local.text@),
        EventView::StatementLine(local.span.line),
    );
    assert(laws::grows(start, last)) by {
        match local.pat {
            Pat::Binding { mutability, name } => {
                let declared = start.declare(name@, mutability);
                let point = AccessPointView { mutability, name: name@ };
                if local.init is Some {
                    let taken = semantics::match_rhs_run(declared, point, local.init->0);
                    laws::law_match_rhs_evolves(declared, point, local.init->0);
                    laws::law_expr_evolves(taken, local.init->0);
                    assert(laws::grows(start, declared));
                    laws::lemma_grows_transitive(start, declared, taken.state);
                    laws::lemma_grows_transitive(start, taken.state, last);
                }
            },
            _ => {},
        }
    }
    if local.els is Some {
        law_let_else(run, plain, local, local.els->0);
        laws::law_block_evolves(semantics::local_run(run, plain), local.els->0);
        laws::lemma_grows_transitive(start, last, semantics::local_run(run, local).state);
    } else {
        assert(plain == local);
    }
    let log = semantics::local_run(run, local).state.log;
    let n = run.state.log.len();
    assert(start.log[n as int + 1] == EventView::Statement(local.text@));
    assert(log[n as int + 1] == start.log[n as int + 1]);
}

proof fn lemma_stmts_ok(run: Run, stmts: Seq<Stmt>, i: nat, n: nat)
    requires
        i <= n <= stmts.len(),
        semantics::stmts_run(run, stmts, n).ok,
    ensures
        semantics::stmts_run(run, stmts, i).ok,
{
    if !semantics::stmts_run(run, stmts, i).ok {
        semantics::lemma_stmts_stuck(run, stmts, i, n);
    }
}

proof fn lemma_stmts_grow(run: Run, stmts: Seq<Stmt>, i: nat, n: nat)
    requires
        i <= n <= stmts.len(),
    ensures
        laws::grows(
            semantics::stmts_run(run, stmts, i).state,
            semantics::stmts_run(run, stmts, n).state,
        ),
    decreases n - i,
{
    if i < n {
        let before = semantics::stmts_run(run, stmts, (n - 1) as nat);
        lemma_stmts_grow(run, stmts, i, (n - 1) as nat);
        laws::law_stmt_evolves(before, stmts[n - 1]);
        laws::lemma_grows_transitive(
            semantics::stmts_run(run, stmts, i).state,
            before.state,
            semantics::stmts_run(run, stmts, n).state,
        );
    }
}

/// A visit of a block that is not stuck tells every `let` among its statements, and declares the
/// variable that it binds.
pub proof fn law_block_tells_every_let(run: Run, block: Block, i: int, local: Local)
    requires
        semantics::block_run(run, block).ok,
        0 <= i < block.stmts@.len(),
        block.stmts@[i] == Stmt::Local(local),
    ensures
        ({
            let last = semantics::block_run(run, block).state;
            &&& exists|k: int|
                run.state.log.len() <= k < last.log.len() && #[trigger] last.log[k]
                    == EventView::Statement(local.text@)
            &&& local.pat matches Pat::Binding { mutability, name }
                ==> last.mutability.contains_key(name@)
        }),
{
    let stmts = block.stmts@;
    let n = stmts.len();
    let before = semantics::stmts_run(run, stmts, i as nat);
    let after = semantics::stmts_run(run, stmts, (i + 1) as nat);
    let done = semantics::stmts_run(run, stmts, n);
    let last = semantics::block_run(run, block).state;
    if !done.ok && block.expr is Some {
        semantics::lemma_expr_stuck(done, *block.expr->0);
    }
    assert(done.ok);
    lemma_stmts_ok(run, stmts, i as nat, n);
    assert(after == semantics::stmt_run(before, stmts[i]));
    law_statement_is_what_it_holds(before, local, arbitrary());
    lemma_let_is_told(before, local);
    laws::law_local_evolves(before, local);
    lemma_stmts_grow(run, stmts, 0, i as nat);
    assert(semantics::stmts_run(run, stmts, 0) == run);
    lemma_stmts_grow(run, stmts, (i + 1) as nat, n);
    if block.expr is Some {
        laws::law_expr_evolves(done, *block.expr->0);
    }
    assert(laws::grows(done.state, last));
    laws::lemma_grows_transitive(after.state, done.state, last);
    let k = before.state.log.len() as int + 1;
    assert(last.log[k] == after.state.log[k]);
}

/// Every call, assignment and `let` that is visited opens with a blank line, its text and its
/// line, behind all that was told before.
pub proof fn law_opening_lines(run: Run, expr: Expr, local: Local)
    requires
        run.ok,
    ensures
        expr.kind is Call ==> (run.state.log + seq![
            EventView::Blank,
            EventView::FunctionCall(expr.text@),
            EventView::OnLine(expr.span.line),
        ]).is_prefix_of(semantics::expr_run(run, expr).state.log),
        expr.kind is Assign ==> (run.state.log + seq![
            EventView::Blank,
            EventView::AssignExpression(expr.text@),
            EventView::OnLine(expr.span.line),
        ]).is_prefix_of(semantics::expr_run(run, expr).state.log),
        (run.state.log + seq![
            EventView::Blank,
            EventView::Statement(local.text@),
            EventView::StatementLine(local.span.line),
        ]).is_prefix_of(semantics::local_run(run, local).state.log),
{
    lemma_let_is_told(run, local);
    match expr.kind {
        ExprKind::Call(callee, args) => {
            let node = EventView::FunctionCall(expr.text@);
            let line = EventView::OnLine(expr.span.line);
            let start = told(run.state, node, line);
            lemma_told(run.state, node, line);
            let function = text::var_name(callee.text@);
            if text::quotes_close(callee.text@) && !(semantics::is_print(function) && args@.len()
                == 0) {
                let printed = if semantics::is_print(function) {
                    match args@[0].kind {
                        ExprKind::Call(_, pieces) => {
                            laws::law_exprs_evolve(start.go(), pieces@, pieces@.len());
                            semantics::exprs_run(start.go(), pieces@, pieces@.len())
                        },
                        _ => start.go(),
                    }
                } else {
                    start.go()
                };
                laws::lemma_args_evolve(printed, function, expr.span.line, args@, args@.len());
                laws::lemma_grows_transitive(
                    start,
                    printed.state,
                    semantics::expr_run(run, expr).state,
                );
            }
        },
        ExprKind::Assign(lhs, rhs) => {
            let node = EventView::AssignExpression(expr.text@);
            let line = EventView::OnLine(expr.span.line);
            let start = told(run.state, node, line);
            lemma_told(run.state, node, line);
            let set = semantics::assign_run(start, *lhs, *rhs);
            let seen = semantics::expr_run(set, *lhs);
            laws::lemma_assign_evolves(start, *lhs, *rhs);
            laws::law_expr_evolves(set, *lhs);
            laws::law_expr_evolves(seen, *rhs);
            laws::lemma_grows_transitive(start, set.state, seen.state);
            laws::lemma_grows_transitive(
                start,
                seen.state,
                semantics::expr_run(seen, *rhs).state,
            );
        },
        _ => {},
    }
}

/// The state in which an assignment sets its variable.
proof fn lemma_assignment_reports(
    run: Run,
    expr: Expr,
    lhs: Box<Expr>,
    rhs: Box<Expr>,
    path: Path,
    name: Seq<char>,
) -> (next: State)
    requires
        expr.kind == ExprKind::Assign(lhs, rhs),
        laws_value::is_variable_path(*lhs, path, name),
        run.state.mutability.contains_key(name),
        semantics::expr_run(run, expr).ok,
    ensures
        run.ok,
        semantics::rhs_readable(*rhs),
        next == semantics::match_rhs_state(
            told(
                run.state,
                EventView::AssignExpression(expr.text@),
                EventView::OnLine(expr.span.line),
            ),
            AccessPointView { mutability: run.state.mutability[name], name },
            *rhs,
        ),
        laws::grows(next, semantics::expr_run(run, expr).state),
{
    assert(run.ok) by {
        if !run.ok {
            semantics::lemma_expr_stuck(run, expr);
        }
    }
    law_assignment(run, expr, lhs, rhs);
    let start = told(
        run.state,
        EventView::AssignExpression(expr.text@),
        EventView::OnLine(expr.span.line),
    );
    let point = AccessPointView { mutability: run.state.mutability[name], name };
    let set = semantics::match_rhs_run(start, point, *rhs);
    let seen = semantics::expr_run(set, *lhs);
    if !set.ok {
        semantics::lemma_expr_stuck(set, *lhs);
        semantics::lemma_expr_stuck(set, *rhs);
    }
    laws::law_expr_evolves(set, *lhs);
    laws::law_expr_evolves(seen, *rhs);
    laws::lemma_grows_transitive(
        set.state,
        seen.state,
        semantics::expr_run(seen, *rhs).state,
    );
    set.state
}

/// What an assignment to a declared variable tells of it, right behind its own three lines: it is
/// bound where it gets a literal; it borrows, statically or mutably as the borrow is; it gets a
/// declared variable moved or copied, as the use of that is; and it gets what a call returns moved
/// or copied, unless that is a reference. It takes part as what it then is.
pub proof fn law_assignment_tells_what_the_variable_gets(
    run: Run,
    expr: Expr,
    lhs: Box<Expr>,
    rhs: Box<Expr>,
    path: Path,
    name: Seq<char>,
    borrow: Mutability,
    inner: Box<Expr>,
    source: Path,
    from: Seq<char>,
    callee: Box<Expr>,
    args: Vec<Expr>,
    output: Ty,
)
    requires
        expr.kind == ExprKind::Assign(lhs, rhs),
        laws_value::is_variable_path(*lhs, path, name),
        run.state.mutability.contains_key(name),
        semantics::expr_run(run, expr).ok,
    ensures
        ({
            let last = semantics::expr_run(run, expr).state;
            let n = run.state.log.len() as int;
            let point = AccessPointView { mutability: run.state.mutability[name], name };
            let to = PartyView::Variable(name);
            let variable = PartyView::Variable(from);
            let function = PartyView::Function(from);
            &&& rhs.kind == ExprKind::Lit ==> {
                &&& last.log.len() > n + 3
                &&& last.log[n + 3] == EventView::Bind(name)
                &&& last.access_points.contains_key(UsageView::Owner(point))
            }
            &&& rhs.kind == ExprKind::AddrOf(borrow, inner) && laws_value::is_variable_path(
                *inner,
                source,
                from,
            ) ==> {
                &&& last.log.len() > n + 3
                &&& borrow == Mutability::Not ==> {
                    &&& last.log[n + 3] == (EventView::Transfer {
                        how: Transfer::StaticBorrow,
                        from: variable,
                        to,
                    })
                    &&& last.access_points.contains_key(UsageView::StaticRef(point))
                }
                &&& borrow == Mutability::Mut ==> {
                    &&& last.log[n + 3] == (EventView::Transfer {
                        how: Transfer::MutableBorrow,
                        from: variable,
                        to,
                    })
                    &&& last.access_points.contains_key(UsageView::MutRef(point))
                }
            }
            &&& laws_value::is_variable_path(*rhs, source, from)
                && run.state.boundaries.contains_key(source.span.lo)
                && run.state.mutability.contains_key(from) ==> {
                &&& last.log.len() > n + 3
                &&& run.state.boundaries[source.span.lo].expected.drop ==> last.log[n + 3] == (
                EventView::Transfer { how: Transfer::Move, from: variable, to })
                &&& !run.state.boundaries[source.span.lo].expected.drop ==> last.log[n + 3] == (
                EventView::Transfer { how: Transfer::Copy, from: variable, to })
            }
            &&& rhs.kind == ExprKind::Call(callee, args) && text::var_name(callee.text@) == Some(
                from,
            ) && callee.output == Some(output) && output.ref_mutability is None ==> {
                &&& last.log.len() > n + 3
                &&& last.access_points.contains_key(UsageView::Owner(point))
                &&& last.access_points.contains_key(UsageView::Function(from))
                &&& output.is_copy && !output.parts@.contains(GenericArg::Type { is_ref: true })
                    ==> last.log[n + 3] == (EventView::Transfer {
                    how: Transfer::Copy,
                    from: function,
                    to,
                })
                &&& !output.is_copy || output.parts@.contains(GenericArg::Type { is_ref: true })
                    ==> last.log[n + 3] == (EventView::Transfer {
                    how: Transfer::Move,
                    from: function,
                    to,
                })
            }
        }),
{
    let start = told(
        run.state,
        EventView::AssignExpression(expr.text@),
        EventView::OnLine(expr.span.line),
    );
    let point = AccessPointView { mutability: run.state.mutability[name], name };
    let next = lemma_assignment_reports(run, expr, lhs, rhs, path, name);
    let last = semantics::expr_run(run, expr).state;
    let n = run.state.log.len() as int;
    assert(next.log.len() > n + 3 ==> last.log[n + 3] == next.log[n + 3]);
    if rhs.kind == ExprKind::Lit {
        laws_value::law_literal_is_bound(start, point, *rhs);
    }
    if rhs.kind == ExprKind::AddrOf(borrow, inner) && laws_value::is_variable_path(
        *inner,
        source,
        from,
    ) {
        laws_value::law_borrow_is_told(start, point, *rhs, borrow, inner, source, from);
    }
    if laws_value::is_variable_path(*rhs, source, from) && run.state.boundaries.contains_key(
        source.span.lo,
    ) && run.state.mutability.contains_key(from) {
        laws_value::law_variable_is_moved_or_copied(start, point, *rhs, source, from);
    }
    if rhs.kind == ExprKind::Call(callee, args) && text::var_name(callee.text@) == Some(from)
        && callee.output == Some(output) {
        laws_value::law_result_is_moved_or_copied(start, point, *rhs, callee, args, from, output);
    }
    assert(next.access_points.contains_key(UsageView::Owner(point))
        ==> last.access_points.contains_key(UsageView::Owner(point)));
    assert(next.access_points.contains_key(UsageView::MutRef(point))
        ==> last.access_points.contains_key(UsageView::MutRef(point)));
    assert(next.access_points.contains_key(UsageView::StaticRef(point))
        ==> last.access_points.contains_key(UsageView::StaticRef(point)));
    assert(next.access_points.contains_key(UsageView::Function(from))
        ==> last.access_points.contains_key(UsageView::Function(from)));
}

} // verus!

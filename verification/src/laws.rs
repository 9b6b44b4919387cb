//! What holds of every trace.

use crate::event::{EventView, PartyView};
use crate::hir::{
    Block, Body, Expr, ExprKind, Local, Mutability, Node, Param, Pat, PermissionsBoundary, QPath,
    Stmt, Ty,
};
use crate::points::{AccessPointView, ReferenceView, UsageView};
use crate::report;
use crate::semantics;
use crate::semantics::{Run, State};
use crate::text;
use vstd::prelude::*;

verus! {

/// A node text whose only outer backquotes enclose `source` gives the name of `source`.
pub proof fn law_quoted_source_is_the_name(before: Seq<char>, source: Seq<char>, after: Seq<char>)
    requires
        !before.contains('`'),
        !after.contains('`'),
    ensures
        ({
            let s = before + seq!['`'] + source + seq!['`'] + after;
            &&& text::quotes_close(s)
            &&& text::var_name(s) == Some(text::short_name(source))
        }),
{
    let s = before + seq!['`'] + source + seq!['`'] + after;
    let first = before.len() as int;
    let last = first + 1 + source.len();
    s.index_of_first_ensures('`');
    s.index_of_last_ensures('`');
    assert(s[first] == '`');
    assert(s[last] == '`');
    let i = s.index_of_first('`')->0;
    let j = s.index_of_last('`')->0;
    assert(i == first) by {
        if i < first {
            assert(before[i] == '`');
        }
    }
    assert(j == last) by {
        if j > last {
            assert(after[j - last - 1] == '`');
        }
    }
    assert(s.subrange(first + 1, last) =~= source);
}

/// A node text without backquotes can be read, and gives no name.
pub proof fn law_no_quotes_no_name(s: Seq<char>)
    requires
        !s.contains('`'),
    ensures
        text::quotes_close(s),
        text::var_name(s) is None,
{
    s.index_of_first_ensures('`');
}

/// Of two uses of a reference the later line counts, in whichever order they come.
pub proof fn law_later_use_counts(
    state: State,
    reference: ReferenceView,
    line: usize,
    other: usize,
)
    ensures
        state.touch(reference, line).touch(reference, other) == state.touch(
            reference,
            if line < other {
                other
            } else {
                line
            },
        ),
{
    assert(state.touch(reference, line).touch(reference, other) =~= state.touch(
        reference,
        if line < other {
            other
        } else {
            line
        },
    ));
}

/// It makes no difference in which order two uses of references are noted.
pub proof fn law_uses_commute(
    state: State,
    a: ReferenceView,
    line_a: usize,
    b: ReferenceView,
    line_b: usize,
)
    ensures
        state.touch(a, line_a).touch(b, line_b) == state.touch(b, line_b).touch(a, line_a),
{
    assert(state.touch(a, line_a).touch(b, line_b) =~= state.touch(b, line_b).touch(a, line_a));
}

/// From `a` to `b` nothing that was gathered is lost: the uses of places are the same, what was
/// reported stays at the front of the log, declared variables stay declared, what takes part
/// stays, and every reference lives at least as long.
pub open spec fn grows(a: State, b: State) -> bool {
    &&& a.boundaries == b.boundaries
    &&& a.log.is_prefix_of(b.log)
    &&& forall|name: Seq<char>|
        a.mutability.contains_key(name) ==> #[trigger] b.mutability.contains_key(name)
    &&& forall|usage: UsageView|
        a.access_points.contains_key(usage) ==> #[trigger] b.access_points.contains_key(usage)
    &&& forall|reference: ReferenceView|
        a.lifetimes.contains_key(reference) ==> #[trigger] b.lifetimes.contains_key(reference)
            && a.lifetimes[reference] <= b.lifetimes[reference]
}

/// Every variable that takes part as a reference has a line on which it dies.
pub open spec fn references_die(state: State) -> bool {
    &&& forall|point: AccessPointView|
        #[trigger] state.access_points.contains_key(UsageView::MutRef(point))
            ==> state.lifetimes.contains_key(ReferenceView::Mut(point.name))
    &&& forall|point: AccessPointView|
        #[trigger] state.access_points.contains_key(UsageView::StaticRef(point))
            ==> state.lifetimes.contains_key(ReferenceView::Static(point.name))
}

/// Nothing that takes part is known to be out of scope.
pub open spec fn all_in_scope(state: State) -> bool {
    forall|usage: UsageView| #[trigger]
        state.access_points.contains_key(usage) ==> !state.access_points[usage]
}

/// `usage` is that of a variable with this name.
pub open spec fn is_variable(usage: UsageView, name: Seq<char>) -> bool {
    report::variable_of(usage) is Some && report::variable_of(usage)->0.name == name
}

/// A variable with this name takes part.
pub open spec fn variable_listed(points: Map<UsageView, bool>, name: Seq<char>) -> bool {
    exists|usage: UsageView| points.contains_key(usage) && #[trigger] is_variable(usage, name)
}

/// Whoever gets something by `event` takes part, and so does the function that it names.
pub open spec fn event_listed(points: Map<UsageView, bool>, event: EventView) -> bool {
    match event {
        EventView::Transfer { how, from, to } => {
            &&& from matches PartyView::Function(name) ==> points.contains_key(
                UsageView::Function(name),
            )
            &&& match to {
                PartyView::Function(name) => points.contains_key(UsageView::Function(name)),
                PartyView::Variable(name) => variable_listed(points, name),
                PartyView::Nowhere => true,
            }
        },
        EventView::Bind(name) => variable_listed(points, name),
        EventView::InitRefParam(name) => variable_listed(points, name),
        EventView::InitOwnerParam(name) => variable_listed(points, name),
        _ => true,
    }
}

/// Of every event in the log, who gets something by it takes part.
pub open spec fn log_listed(state: State) -> bool {
    forall|i: int|
        0 <= i < state.log.len() ==> event_listed(state.access_points, #[trigger] state.log[i])
}

/// What every trace keeps.
pub open spec fn sound(state: State) -> bool {
    &&& references_die(state)
    &&& all_in_scope(state)
    &&& log_listed(state)
}

/// `b` is what `a` may become: nothing is lost, and what is sound stays so.
pub open spec fn evolves(a: State, b: State) -> bool {
    &&& grows(a, b)
    &&& sound(a) ==> sound(b)
}

/// What loses nothing in two steps loses nothing.
pub proof fn lemma_grows_transitive(a: State, b: State, c: State)
    requires
        grows(a, b),
        grows(b, c),
    ensures
        grows(a, c),
{
    assert forall|name: Seq<char>| a.mutability.contains_key(name) implies #[trigger]
        c.mutability.contains_key(name) by {
        assert(b.mutability.contains_key(name));
    }
    assert forall|usage: UsageView| a.access_points.contains_key(usage) implies #[trigger]
        c.access_points.contains_key(usage) by {
        assert(b.access_points.contains_key(usage));
    }
    assert forall|reference: ReferenceView| a.lifetimes.contains_key(reference) implies #[trigger]
        c.lifetimes.contains_key(reference) && a.lifetimes[reference] <= c.lifetimes[reference] by {
        assert(b.lifetimes.contains_key(reference));
        assert(c.lifetimes.contains_key(reference));
    }
}

proof fn lemma_evolves_transitive(a: State, b: State, c: State)
    requires
        evolves(a, b),
        evolves(b, c),
    ensures
        evolves(a, c),
{
    lemma_grows_transitive(a, b, c);
}

proof fn lemma_listed_grows(
    a: Map<UsageView, bool>,
    b: Map<UsageView, bool>,
    event: EventView,
)
    requires
        event_listed(a, event),
        forall|usage: UsageView| a.contains_key(usage) ==> #[trigger] b.contains_key(usage),
    ensures
        event_listed(b, event),
{
    assert forall|name: Seq<char>| variable_listed(a, name) implies variable_listed(b, name) by {
        let usage = choose|usage: UsageView|
            a.contains_key(usage) && #[trigger] is_variable(usage, name);
        assert(b.contains_key(usage) && is_variable(usage, name));
    }
}

/// The log stays listed when events are added that are, and more takes part.
proof fn lemma_log_listed(a: State, b: State)
    requires
        grows(a, b),
        log_listed(a),
        forall|i: int|
            a.log.len() <= i < b.log.len() ==> event_listed(b.access_points, #[trigger] b.log[i]),
    ensures
        log_listed(b),
{
    assert forall|i: int| 0 <= i < b.log.len() implies event_listed(
        b.access_points,
        #[trigger] b.log[i],
    ) by {
        if i < a.log.len() {
            assert(a.log[i] == b.log[i]);
            lemma_listed_grows(a.access_points, b.access_points, a.log[i]);
        }
    }
}

proof fn lemma_take_variable(
    state: State,
    lhs: AccessPointView,
    name: Seq<char>,
    mutability: Mutability,
    boundary: PermissionsBoundary,
    line: usize,
)
    ensures
        evolves(state, semantics::take_variable(state, lhs, name, mutability, boundary, line)),
{
    let next = semantics::take_variable(state, lhs, name, mutability, boundary, line);
    assert(is_variable(UsageView::Owner(lhs), lhs.name));
    assert(is_variable(UsageView::MutRef(lhs), lhs.name));
    assert(is_variable(UsageView::StaticRef(lhs), lhs.name));
    if sound(state) {
        lemma_log_listed(state, next);
    }
}

proof fn lemma_take_output(state: State, lhs: AccessPointView, function: Seq<char>, output: Ty)
    ensures
        evolves(state, semantics::take_output(state, lhs, function, output)),
{
    let next = semantics::take_output(state, lhs, function, output);
    assert(is_variable(UsageView::Owner(lhs), lhs.name));
    if sound(state) {
        lemma_log_listed(state, next);
    }
}

proof fn lemma_take_borrow(
    state: State,
    lhs: AccessPointView,
    name: Seq<char>,
    mutability: Mutability,
    line: usize,
)
    ensures
        evolves(state, semantics::take_borrow(state, lhs, name, mutability, line)),
{
    let next = semantics::take_borrow(state, lhs, name, mutability, line);
    assert(is_variable(UsageView::MutRef(lhs), lhs.name));
    assert(is_variable(UsageView::StaticRef(lhs), lhs.name));
    if sound(state) {
        lemma_log_listed(state, next);
    }
}

/// To trace what a variable gets loses nothing and keeps the trace sound, and declares nothing.
pub proof fn law_match_rhs_evolves(state: State, lhs: AccessPointView, rhs: Expr)
    ensures
        evolves(state, semantics::match_rhs_state(state, lhs, rhs)),
        semantics::match_rhs_state(state, lhs, rhs).mutability == state.mutability,
{
    let next = semantics::match_rhs_state(state, lhs, rhs);
    let line = rhs.span.line;
    match rhs.kind {
        ExprKind::Path(QPath::Resolved(path)) => {
            if let Some(name) = text::var_name(path.segment@) {
                lemma_take_variable(
                    state,
                    lhs,
                    name,
                    state.mutability[name],
                    state.boundaries[path.span.lo],
                    line,
                );
            }
        },
        ExprKind::Call(callee, _) => {
            if let Some(function) = text::var_name(callee.text@) {
                lemma_take_output(state, lhs, function, callee.output->0);
            }
        },
        ExprKind::Lit => {
            assert(is_variable(UsageView::Owner(lhs), lhs.name));
            if sound(state) {
                lemma_log_listed(state, next);
            }
        },
        ExprKind::AddrOf(mutability, inner) => {
            if let Some(name) = semantics::path_name(*inner) {
                lemma_take_borrow(state, lhs, name, mutability, line);
            }
        },
        _ => {},
    }
}

/// To trace a parameter loses nothing and keeps the trace sound, and declares nothing.
pub proof fn law_param_evolves(state: State, param: Param)
    ensures
        evolves(state, semantics::param_state(state, param)),
        semantics::param_state(state, param).mutability == state.mutability,
{
    let next = semantics::param_state(state, param);
    if let Pat::Binding { mutability, name } = param.pat {
        let point = AccessPointView { mutability, name: name@ };
        assert(is_variable(UsageView::Owner(point), name@));
        assert(is_variable(UsageView::MutRef(point), name@));
        assert(is_variable(UsageView::StaticRef(point), name@));
        if sound(state) {
            lemma_log_listed(state, next);
        }
    }
}

proof fn lemma_pass_variable(
    state: State,
    name: Seq<char>,
    function: Seq<char>,
    boundary: PermissionsBoundary,
    line: usize,
)
    ensures
        evolves(state, semantics::pass_variable(state, name, function, boundary, line)),
{
    let next = semantics::pass_variable(state, name, function, boundary, line);
    if sound(state) {
        lemma_log_listed(state, next);
    }
}

proof fn lemma_pass_borrow(
    state: State,
    name: Seq<char>,
    function: Seq<char>,
    mutability: Mutability,
    line: usize,
)
    ensures
        evolves(state, semantics::pass_borrow(state, name, function, mutability, line)),
{
    let next = semantics::pass_borrow(state, name, function, mutability, line);
    if sound(state) {
        lemma_log_listed(state, next);
    }
}

/// To trace an argument of a call loses nothing and keeps the trace sound, and declares nothing.
pub proof fn law_arg_evolves(run: Run, function: Option<Seq<char>>, line: usize, arg: Expr)
    ensures
        evolves(run.state, semantics::arg_run(run, function, line, arg).state),
        semantics::arg_run(run, function, line, arg).state.mutability == run.state.mutability,
{
    let state = run.state;
    if run.ok && function is Some {
        let function = function->0;
        match arg.kind {
            ExprKind::Path(QPath::Resolved(path)) => {
                if let Some(name) = text::var_name(path.segment@) {
                    lemma_pass_variable(
                        state,
                        name,
                        function,
                        state.boundaries[path.span.lo],
                        line,
                    );
                }
            },
            ExprKind::AddrOf(mutability, inner) => {
                if let Some(name) = semantics::path_name(*inner) {
                    lemma_pass_borrow(state, name, function, mutability, line);
                }
            },
            _ => {},
        }
    }
}

/// To trace the arguments of a call loses nothing and keeps the trace sound.
pub proof fn lemma_args_evolve(
    run: Run,
    function: Option<Seq<char>>,
    line: usize,
    args: Seq<Expr>,
    n: nat,
)
    ensures
        evolves(run.state, semantics::args_run(run, function, line, args, n).state),
    decreases n,
{
    if n > 0 {
        let before = semantics::args_run(run, function, line, args, (n - 1) as nat);
        lemma_args_evolve(run, function, line, args, (n - 1) as nat);
        law_arg_evolves(before, function, line, args[n - 1]);
        lemma_evolves_transitive(
            run.state,
            before.state,
            semantics::args_run(run, function, line, args, n).state,
        );
    }
}

/// An event by which nobody gets anything can be reported at any time.
proof fn lemma_emit(state: State, event: EventView)
    requires
        event_listed(state.access_points, event),
    ensures
        evolves(state, state.emit(event)),
{
    if sound(state) {
        lemma_log_listed(state, state.emit(event));
    }
}

/// Three events by which nobody gets anything.
proof fn lemma_emit_three(state: State, a: EventView, b: EventView, c: EventView)
    requires
        event_listed(state.access_points, a),
        event_listed(state.access_points, b),
        event_listed(state.access_points, c),
    ensures
        evolves(state, state.emit(a).emit(b).emit(c)),
{
    if sound(state) {
        lemma_log_listed(state, state.emit(a).emit(b).emit(c));
    }
}

/// To trace what an assignment sets loses nothing and keeps the trace sound.
pub proof fn lemma_assign_evolves(state: State, lhs: Expr, rhs: Expr)
    ensures
        evolves(state, semantics::assign_run(state, lhs, rhs).state),
{
    let name = semantics::assigned_name(lhs);
    law_match_rhs_evolves(
        state,
        AccessPointView { mutability: state.mutability[name], name },
        rhs,
    );
}

proof fn lemma_local_use_evolves(state: State, expr: Expr, lo: u32)
    ensures
        evolves(state, semantics::local_use_run(state, expr, lo).state),
{
    let next = semantics::local_use_run(state, expr, lo).state;
    if sound(state) {
        lemma_log_listed(state, next);
    }
}

/// A visit of an expression loses nothing and keeps the trace sound.
pub proof fn law_expr_evolves(run: Run, expr: Expr)
    ensures
        evolves(run.state, semantics::expr_run(run, expr).state),
    decreases expr, 0nat,
{
    let state = run.state;
    let last = semantics::expr_run(run, expr).state;
    if run.ok {
        match expr.kind {
            ExprKind::Call(callee, args) => {
                let told = state.emit(EventView::Blank).emit(
                    EventView::FunctionCall(expr.text@),
                ).emit(EventView::OnLine(expr.span.line));
                lemma_emit_three(
                    state,
                    EventView::Blank,
                    EventView::FunctionCall(expr.text@),
                    EventView::OnLine(expr.span.line),
                );
                let function = text::var_name(callee.text@);
                if text::quotes_close(callee.text@) && !(semantics::is_print(function)
                    && args@.len() == 0) {
                    let printed = if semantics::is_print(function) {
                        match args@[0].kind {
                            ExprKind::Call(_, pieces) => {
                                law_exprs_evolve(told.go(), pieces@, pieces@.len());
                                semantics::exprs_run(told.go(), pieces@, pieces@.len())
                            },
                            _ => told.go(),
                        }
                    } else {
                        told.go()
                    };
                    lemma_args_evolve(printed, function, expr.span.line, args@, args@.len());
                    lemma_evolves_transitive(state, told, printed.state);
                    lemma_evolves_transitive(state, printed.state, last);
                }
            },
            ExprKind::MethodCall { receiver, args, span } => {
                if !span.from_expansion && receiver.is_place {
                    law_exprs_evolve(run, args@, args@.len());
                } else {
                    let between = semantics::expr_run(run, *receiver);
                    law_expr_evolves(run, *receiver);
                    law_exprs_evolve(between, args@, args@.len());
                    lemma_evolves_transitive(state, between.state, last);
                }
            },
            ExprKind::Binary(lhs, rhs) => {
                let between = semantics::expr_run(run, *lhs);
                law_expr_evolves(run, *lhs);
                law_expr_evolves(between, *rhs);
                lemma_evolves_transitive(state, between.state, last);
            },
            ExprKind::Lit => {},
            ExprKind::AddrOf(_, inner) => {
                law_expr_evolves(run, *inner);
            },
            ExprKind::Assign(lhs, rhs) => {
                let told = state.emit(EventView::Blank).emit(
                    EventView::AssignExpression(expr.text@),
                ).emit(EventView::OnLine(expr.span.line));
                lemma_emit_three(
                    state,
                    EventView::Blank,
                    EventView::AssignExpression(expr.text@),
                    EventView::OnLine(expr.span.line),
                );
                let assigned = semantics::assign_run(told, *lhs, *rhs);
                let seen = semantics::expr_run(assigned, *lhs);
                lemma_assign_evolves(told, *lhs, *rhs);
                law_expr_evolves(assigned, *lhs);
                law_expr_evolves(seen, *rhs);
                lemma_evolves_transitive(state, told, assigned.state);
                lemma_evolves_transitive(state, assigned.state, seen.state);
                lemma_evolves_transitive(
                    state,
                    seen.state,
                    semantics::expr_run(seen, *rhs).state,
                );
            },
            ExprKind::Block(block) => {
                law_block_evolves(run, block);
            },
            ExprKind::AssignOp(lhs, _) => {
                law_expr_evolves(run, *lhs);
            },
            ExprKind::Unary(_, inner) => {
                law_expr_evolves(run, *inner);
            },
            ExprKind::Path(QPath::Resolved(path)) => {
                lemma_local_use_evolves(state, expr, path.span.lo);
            },
            ExprKind::Path(QPath::Other) => {},
            ExprKind::Other(nodes) => {
                law_nodes_evolve(run, nodes@, nodes@.len());
            },
        }
    }
}

/// Visits of expressions lose nothing and keep the trace sound.
pub proof fn law_exprs_evolve(run: Run, exprs: Seq<Expr>, n: nat)
    requires
        n <= exprs.len(),
    ensures
        evolves(run.state, semantics::exprs_run(run, exprs, n).state),
    decreases exprs, n,
{
    if n > 0 {
        let before = semantics::exprs_run(run, exprs, (n - 1) as nat);
        law_exprs_evolve(run, exprs, (n - 1) as nat);
        law_expr_evolves(before, exprs[n - 1]);
        lemma_evolves_transitive(
            run.state,
            before.state,
            semantics::exprs_run(run, exprs, n).state,
        );
    }
}

/// Visits of nodes lose nothing and keep the trace sound.
pub proof fn law_nodes_evolve(run: Run, nodes: Seq<Node>, n: nat)
    requires
        n <= nodes.len(),
    ensures
        evolves(run.state, semantics::nodes_run(run, nodes, n).state),
    decreases nodes, n,
{
    if n > 0 {
        let before = semantics::nodes_run(run, nodes, (n - 1) as nat);
        law_nodes_evolve(run, nodes, (n - 1) as nat);
        match nodes[n - 1] {
            Node::Expr(expr) => {
                law_expr_evolves(before, expr);
            },
            Node::Block(block) => {
                law_block_evolves(before, block);
            },
        }
        assert(evolves(before.state, semantics::node_run(before, nodes[n - 1]).state));
        lemma_evolves_transitive(
            run.state,
            before.state,
            semantics::nodes_run(run, nodes, n).state,
        );
    }
}

/// A visit of a block loses nothing and keeps the trace sound.
pub proof fn law_block_evolves(run: Run, block: Block)
    ensures
        evolves(run.state, semantics::block_run(run, block).state),
    decreases block, 0nat,
{
    let done = semantics::stmts_run(run, block.stmts@, block.stmts@.len());
    law_stmts_evolve(run, block.stmts@, block.stmts@.len());
    if block.expr is Some {
        law_expr_evolves(done, *block.expr->0);
        lemma_evolves_transitive(
            run.state,
            done.state,
            semantics::block_run(run, block).state,
        );
    }
}

/// Visits of statements lose nothing and keep the trace sound.
pub proof fn law_stmts_evolve(run: Run, stmts: Seq<Stmt>, n: nat)
    requires
        n <= stmts.len(),
    ensures
        evolves(run.state, semantics::stmts_run(run, stmts, n).state),
    decreases stmts, n,
{
    if n > 0 {
        let before = semantics::stmts_run(run, stmts, (n - 1) as nat);
        law_stmts_evolve(run, stmts, (n - 1) as nat);
        law_stmt_evolves(before, stmts[n - 1]);
        lemma_evolves_transitive(
            run.state,
            before.state,
            semantics::stmts_run(run, stmts, n).state,
        );
    }
}

/// A visit of a statement loses nothing and keeps the trace sound.
pub proof fn law_stmt_evolves(run: Run, stmt: Stmt)
    ensures
        evolves(run.state, semantics::stmt_run(run, stmt).state),
    decreases stmt, 0nat,
{
    match stmt {
        Stmt::Local(local) => {
            law_local_evolves(run, local);
        },
        Stmt::Item => {},
        Stmt::Expr(expr) => {
            law_expr_evolves(run, expr);
        },
        Stmt::Semi(expr) => {
            law_expr_evolves(run, expr);
        },
    }
}

/// A visit of a `let` statement loses nothing and keeps the trace sound, and the variable is
/// declared after it.
pub proof fn law_local_evolves(run: Run, local: Local)
    ensures
        evolves(run.state, semantics::local_run(run, local).state),
        run.ok ==> (local.pat matches Pat::Binding { mutability, name }
            ==> semantics::local_run(run, local).state.mutability.contains_key(name@)),
    decreases local, 0nat,
{
    let state = run.state;
    if run.ok {
        let told = state.emit(EventView::Blank).emit(EventView::Statement(local.text@)).emit(
            EventView::StatementLine(local.span.line),
        );
        lemma_emit_three(
            state,
            EventView::Blank,
            EventView::Statement(local.text@),
            EventView::StatementLine(local.span.line),
        );
        let set = match local.pat {
            Pat::Binding { mutability, name } => {
                let declared = told.declare(name@, mutability);
                assert(evolves(told, declared));
                lemma_evolves_transitive(state, told, declared);
                match local.init {
                    Some(init) => {
                        let point = AccessPointView { mutability, name: name@ };
                        let taken = semantics::match_rhs_run(declared, point, init);
                        law_match_rhs_evolves(declared, point, init);
                        lemma_evolves_transitive(state, declared, taken.state);
                        if init.kind is Path {
                            taken
                        } else {
                            law_expr_evolves(taken, init);
                            let seen = semantics::expr_run(taken, init);
                            lemma_evolves_transitive(declared, taken.state, seen.state);
                            lemma_evolves_transitive(state, declared, seen.state);
                            seen
                        }
                    },
                    None => declared.go(),
                }
            },
            Pat::Path { def_path } => {
                lemma_emit(told, EventView::LhsPath(def_path@));
                lemma_evolves_transitive(state, told, told.emit(EventView::LhsPath(def_path@)));
                told.emit(EventView::LhsPath(def_path@)).go()
            },
            Pat::Other => {
                lemma_emit(told, EventView::LhsNotListed);
                lemma_evolves_transitive(state, told, told.emit(EventView::LhsNotListed));
                told.emit(EventView::LhsNotListed).go()
            },
        };
        if local.els is Some {
            law_block_evolves(set, local.els->0);
            lemma_evolves_transitive(
                state,
                set.state,
                semantics::block_run(set, local.els->0).state,
            );
        }
    }
}

proof fn lemma_params_evolve(state: State, params: Seq<Param>, n: nat)
    requires
        n <= params.len(),
    ensures
        evolves(state, semantics::params_state(state, params, n)),
    decreases n,
{
    if n > 0 {
        let before = semantics::params_state(state, params, (n - 1) as nat);
        lemma_params_evolve(state, params, (n - 1) as nat);
        law_param_evolves(before, params[n - 1]);
        lemma_evolves_transitive(state, before, semantics::params_state(state, params, n));
    }
}

/// A visit of a body loses nothing and keeps the trace sound.
pub proof fn law_body_evolves(run: Run, body: Body)
    ensures
        evolves(run.state, semantics::body_run(run, body).state),
{
    if run.ok {
        let started = semantics::params_state(run.state, body.params@, body.params@.len());
        lemma_params_evolve(run.state, body.params@, body.params@.len());
        law_expr_evolves(started.go(), body.value);
        lemma_evolves_transitive(
            run.state,
            started,
            semantics::body_run(run, body).state,
        );
    }
}

/// The trace of a body that starts with nothing gathered is sound: every variable that takes part
/// as a reference has a line on which it dies, nothing that takes part is taken for out of scope,
/// and of every event in the log, who gets something by it takes part.
pub proof fn law_trace_is_sound(boundaries: Map<u32, PermissionsBoundary>, body: Body)
    ensures
        ({
            let start = State {
                boundaries,
                mutability: Map::empty(),
                lifetimes: Map::empty(),
                access_points: Map::empty(),
                log: Seq::empty(),
            };
            sound(semantics::body_run(start.go(), body).state)
        }),
{
    let start = State {
        boundaries,
        mutability: Map::empty(),
        lifetimes: Map::empty(),
        access_points: Map::empty(),
        log: Seq::empty(),
    };
    law_body_evolves(start.go(), body);
}

} // verus!
